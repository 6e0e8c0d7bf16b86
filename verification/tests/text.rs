use pong::decimal::counter_text;

#[test]
fn text_of_small_counters() {
    assert_eq!(counter_text(0), "0");
    assert_eq!(counter_text(1), "1");
    assert_eq!(counter_text(7), "7");
    assert_eq!(counter_text(9), "9");
    assert_eq!(counter_text(10), "10");
    assert_eq!(counter_text(11), "11");
    assert_eq!(counter_text(99), "99");
    assert_eq!(counter_text(100), "100");
    assert_eq!(counter_text(101), "101");
    assert_eq!(counter_text(407), "407");
    assert_eq!(counter_text(999), "999");
}

#[test]
fn text_of_every_counter_in_range() {
    for n in 0..=999 {
        assert_eq!(counter_text(n), n.to_string());
    }
}

#[test]
fn text_of_numbers_out_of_range() {
    assert_eq!(counter_text(1000), "1000");
    assert_eq!(counter_text(1234567890), "1234567890");
    assert_eq!(counter_text(i32::MAX), "2147483647");
    assert_eq!(counter_text(-1), "-1");
    assert_eq!(counter_text(-5), "-5");
    assert_eq!(counter_text(-10), "-10");
    assert_eq!(counter_text(-999), "-999");
    assert_eq!(counter_text(i32::MIN), "-2147483648");
}
