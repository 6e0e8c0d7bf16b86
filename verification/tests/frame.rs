use pong::pong::{Arena, Ball, Paddle, Pong, ScoreBoard, ScoreText, Side};
use pong::pong::{
    ARENA_HEIGHT, ARENA_WIDTH, BALL_RADIUS, BALL_VELOCITY_X, BALL_VELOCITY_Y, COUNTER_MAX,
    PADDLE_HEIGHT, PADDLE_WIDTH,
};
use pong::systems::{MoveBallsSystem, PaddleSystem};

fn ball(x: i32, y: i32, velocity: [i32; 2]) -> Ball {
    Ball { x, y, velocity, radius: 2 }
}

fn started() -> Pong {
    let mut world = Pong::new();
    world.on_start();
    world
}

fn zeros() -> ScoreText {
    ScoreText {
        p1_score: String::from("0"),
        p2_score: String::from("0"),
        p1_stroke: String::from("0"),
        p2_stroke: String::from("0"),
        p1_max_stroke: String::from("0"),
        p2_max_stroke: String::from("0"),
        serve_time: String::from("0"),
    }
}

#[test]
fn constants_of_the_standard_session() {
    assert_eq!(ARENA_WIDTH, 100);
    assert_eq!(ARENA_HEIGHT, 100);
    assert_eq!(PADDLE_WIDTH, 4);
    assert_eq!(PADDLE_HEIGHT, 16);
    assert_eq!(BALL_RADIUS, 2);
    assert_eq!(BALL_VELOCITY_X, 25);
    assert_eq!(BALL_VELOCITY_Y, 15);
    assert_eq!(COUNTER_MAX, 999);
}

#[test]
fn new_session_is_empty() {
    let world = Pong::new();
    assert_eq!(world.arena, Arena { width: 100, height: 100 });
    assert!(world.balls.is_empty());
    assert!(world.paddles.is_empty());
    assert_eq!(world.scores, ScoreBoard::default());
    assert_eq!(world.text, zeros());
    assert!(world.is_wf());
}

#[test]
fn score_board_starts_at_zero() {
    let board = ScoreBoard::default();
    assert_eq!(board.score_left, 0);
    assert_eq!(board.score_right, 0);
    assert_eq!(board.stroke_left, 0);
    assert_eq!(board.stroke_right, 0);
    assert_eq!(board.stroke_max_left, 0);
    assert_eq!(board.stroke_max_right, 0);
    assert_eq!(board.serve_duration, 0);
}

#[test]
fn paddle_of_the_standard_size() {
    assert_eq!(
        Paddle::new(Side::Left),
        Paddle { side: Side::Left, width: 4, height: 16, x: 0, y: 0 }
    );
    assert_eq!(
        Paddle::new(Side::Right),
        Paddle { side: Side::Right, width: 4, height: 16, x: 0, y: 0 }
    );
}

#[test]
fn start_of_a_session() {
    let world = started();
    assert_eq!(world.arena, Arena { width: 100, height: 100 });
    assert_eq!(world.balls, vec![Ball { x: 50, y: 50, velocity: [25, 15], radius: 2 }]);
    assert_eq!(
        world.paddles,
        vec![
            Paddle { side: Side::Left, width: 4, height: 16, x: 0, y: 42 },
            Paddle { side: Side::Right, width: 4, height: 16, x: 96, y: 42 },
        ]
    );
    assert_eq!(world.scores, ScoreBoard::default());
    assert_eq!(world.text, zeros());
    assert!(world.is_wf());
}

#[test]
fn start_discards_what_the_session_held() {
    let mut world = started();
    world.balls.push(ball(1, 2, [3, 4]));
    world.paddles.clear();
    world.arena = Arena { width: 7, height: 9 };
    world.scores.score_left = 12;
    world.text.p1_score = String::from("12");
    world.on_start();
    assert_eq!(world, started());
}

#[test]
fn balls_move_by_velocity_times_elapsed() {
    let mut world = started();
    world.balls.push(ball(10, 90, [-3, -7]));
    assert!(MoveBallsSystem.can_run(&world, 2));
    MoveBallsSystem.run(&mut world, 2);
    assert_eq!(world.balls[0], Ball { x: 100, y: 80, velocity: [25, 15], radius: 2 });
    assert_eq!(world.balls[1], Ball { x: 4, y: 76, velocity: [-3, -7], radius: 2 });
    MoveBallsSystem.run(&mut world, 0);
    assert_eq!(world.balls[0], Ball { x: 100, y: 80, velocity: [25, 15], radius: 2 });
    MoveBallsSystem.run(&mut world, 1);
    assert_eq!(world.balls[0], Ball { x: 125, y: 95, velocity: [25, 15], radius: 2 });
    assert_eq!(world.paddles, started().paddles);
    assert_eq!(world.scores, ScoreBoard::default());
}

#[test]
fn ball_cannot_move_off_the_grid() {
    let mut world = Pong::new();
    world.balls = vec![ball(i32::MAX - 1, 0, [1, 0])];
    assert!(MoveBallsSystem.can_run(&world, 1));
    assert!(!MoveBallsSystem.can_run(&world, 2));
    world.balls = vec![ball(0, i32::MIN + 5, [0, -3])];
    assert!(MoveBallsSystem.can_run(&world, 1));
    assert!(!MoveBallsSystem.can_run(&world, 2));
    world.balls = vec![ball(0, 0, [i32::MAX, i32::MIN])];
    assert!(MoveBallsSystem.can_run(&world, 1));
    assert!(!MoveBallsSystem.can_run(&world, u32::MAX));
    world.balls = vec![ball(5, 5, [0, 0]), ball(i32::MAX, 0, [1, 0])];
    assert!(!MoveBallsSystem.can_run(&world, 1));
    assert!(MoveBallsSystem.can_run(&world, 0));
    MoveBallsSystem.run(&mut world, 0);
    assert_eq!(world.balls[1].x, i32::MAX);
}

#[test]
fn ball_moves_to_the_last_place_of_the_grid() {
    let mut world = Pong::new();
    world.balls = vec![ball(i32::MAX - 50, i32::MIN + 30, [25, -15])];
    assert!(MoveBallsSystem.can_run(&world, 2));
    MoveBallsSystem.run(&mut world, 2);
    assert_eq!(world.balls[0].x, i32::MAX);
    assert_eq!(world.balls[0].y, i32::MIN);
}

#[test]
fn paddles_move_by_intent_times_speed_times_elapsed() {
    let mut world = started();
    assert!(PaddleSystem.can_run(&world, Some(1), Some(-2), 3, 5));
    PaddleSystem.run(&mut world, Some(1), Some(-2), 3, 5);
    assert_eq!(world.paddles[0], Paddle { side: Side::Left, width: 4, height: 16, x: 0, y: 57 });
    assert_eq!(world.paddles[1], Paddle { side: Side::Right, width: 4, height: 16, x: 96, y: 12 });
    assert_eq!(world.balls, started().balls);
}

#[test]
fn paddle_without_intent_rests() {
    let mut world = started();
    PaddleSystem.run(&mut world, None, Some(1), 3, 5);
    assert_eq!(world.paddles[0].y, 42);
    assert_eq!(world.paddles[1].y, 57);
    PaddleSystem.run(&mut world, Some(-1), None, 3, 5);
    assert_eq!(world.paddles[0].y, 27);
    assert_eq!(world.paddles[1].y, 57);
    PaddleSystem.run(&mut world, None, None, 3, 5);
    assert_eq!(world.paddles[0].y, 27);
    assert_eq!(world.paddles[1].y, 57);
    PaddleSystem.run(&mut world, Some(0), Some(0), 3, 5);
    assert_eq!(world.paddles[0].y, 27);
}

#[test]
fn paddles_are_not_held_inside_the_arena() {
    let mut world = started();
    PaddleSystem.run(&mut world, Some(1), Some(-1), 10, 20);
    assert_eq!(world.paddles[0].y, 242);
    assert_eq!(world.paddles[1].y, -158);
}

#[test]
fn paddle_cannot_move_off_the_grid() {
    let mut world = started();
    assert!(!PaddleSystem.can_run(&world, Some(i32::MAX), None, 1, 1));
    assert!(PaddleSystem.can_run(&world, Some(i32::MAX - 42), None, 1, 1));
    assert!(!PaddleSystem.can_run(&world, Some(i32::MAX - 42), None, 1, 2));
    assert!(!PaddleSystem.can_run(&world, Some(i32::MAX - 42), None, 2, 1));
    assert!(PaddleSystem.can_run(&world, None, Some(i32::MAX), i32::MAX, 0));
    assert!(!PaddleSystem.can_run(&world, None, Some(i32::MIN), i32::MIN, u32::MAX));
    assert!(!PaddleSystem.can_run(&world, None, Some(i32::MIN), i32::MAX, u32::MAX));
    assert!(PaddleSystem.can_run(&world, None, None, i32::MAX, u32::MAX));
    world.paddles[1].y = i32::MIN + 10;
    assert!(PaddleSystem.can_run(&world, Some(-7), Some(-1), 2, 5));
    assert!(!PaddleSystem.can_run(&world, Some(-7), Some(-1), 2, 6));
    PaddleSystem.run(&mut world, Some(-7), Some(-1), 2, 5);
    assert_eq!(world.paddles[1].y, i32::MIN);
    assert_eq!(world.paddles[0].y, -28);
}

#[test]
fn frame_runs_the_stages_in_order() {
    // The ball moves into the left paddle and bounces in the same frame.
    let mut world = started();
    world.balls = vec![ball(28, 50, [-25, 0])];
    assert!(world.can_update(None, None, 1, 1));
    world.update(None, None, 1, 1);
    assert_eq!(world.balls[0], Ball { x: 3, y: 50, velocity: [25, 0], radius: 2 });
    assert_eq!(world.scores, ScoreBoard { stroke_left: 1, stroke_max_left: 1, ..ScoreBoard::default() });

    // The paddle moves away first, so the ball misses it.
    let mut world = started();
    world.balls = vec![ball(30, 50, [-25, 0])];
    world.update(Some(1), None, 30, 1);
    assert_eq!(world.paddles[0].y, 72);
    assert_eq!(world.balls[0], Ball { x: 5, y: 50, velocity: [-25, 0], radius: 2 });
    assert_eq!(world.scores, ScoreBoard::default());

    // The ball moves to the wall band, bounces off the paddle there, and
    // gives its point afterwards: the stroke is counted and then reset.
    let mut world = started();
    world.balls = vec![ball(26, 50, [-25, 0])];
    world.update(None, None, 1, 1);
    assert_eq!(world.balls[0], Ball { x: 50, y: 50, velocity: [-25, 0], radius: 2 });
    assert_eq!(
        world.scores,
        ScoreBoard { score_right: 1, stroke_max_left: 1, ..ScoreBoard::default() }
    );
    assert_eq!(world.text.p2_score, "1");
    assert_eq!(world.text.p1_stroke, "0");
    assert_eq!(world.text.p1_max_stroke, "1");
}

#[test]
fn frames_of_a_standard_session() {
    let mut world = started();
    world.update(None, None, 1, 1);
    assert_eq!(world.balls[0], Ball { x: 75, y: 65, velocity: [25, 15], radius: 2 });
    world.update(None, None, 1, 1);
    assert_eq!(world.balls[0], Ball { x: 50, y: 80, velocity: [-25, 15], radius: 2 });
    assert_eq!(world.scores, ScoreBoard { score_left: 1, ..ScoreBoard::default() });
    world.update(None, None, 1, 1);
    assert_eq!(world.balls[0], Ball { x: 25, y: 95, velocity: [-25, 15], radius: 2 });
    world.update(None, None, 1, 1);
    assert_eq!(world.balls[0], Ball { x: 50, y: 110, velocity: [25, -15], radius: 2 });
    assert_eq!(world.scores, ScoreBoard { score_left: 1, score_right: 1, ..ScoreBoard::default() });
    assert_eq!(world.text.p1_score, "1");
    assert_eq!(world.text.p2_score, "1");
}

#[test]
fn counters_stay_in_range_over_many_frames() {
    let mut world = started();
    for round in 0..5000 {
        let left = if round % 3 == 0 { Some(1) } else { None };
        let right = if round % 7 == 0 { Some(-1) } else { Some(1) };
        let right = if world.paddles[1].y > 60 { Some(-1) } else { right };
        let left = if world.paddles[0].y > 60 { Some(-1) } else { left };
        assert!(world.can_update(left, right, 1, 1));
        world.update(left, right, 1, 1);
        let board = world.scores;
        for counter in [
            board.score_left,
            board.score_right,
            board.stroke_left,
            board.stroke_right,
            board.stroke_max_left,
            board.stroke_max_right,
        ] {
            assert!(0 <= counter && counter <= 999);
        }
        assert!(board.stroke_left <= board.stroke_max_left);
        assert!(board.stroke_right <= board.stroke_max_right);
        assert_eq!(world.text.p1_score, board.score_left.to_string());
        assert_eq!(world.text.p2_score, board.score_right.to_string());
        assert_eq!(world.text.p1_stroke, board.stroke_left.to_string());
        assert_eq!(world.text.p2_stroke, board.stroke_right.to_string());
        assert_eq!(world.text.p1_max_stroke, board.stroke_max_left.to_string());
        assert_eq!(world.text.p2_max_stroke, board.stroke_max_right.to_string());
    }
    assert_eq!(world.scores.score_left + world.scores.score_right > 0, true);
}

#[test]
fn frame_cannot_run_with_an_ill_formed_ball() {
    let mut world = started();
    assert!(world.can_update(None, None, 1, 1));
    world.balls[0].velocity = [i32::MIN, 0];
    assert!(!world.is_wf());
    assert!(!world.can_update(None, None, 1, 0));
    world.balls[0].velocity = [0, i32::MIN];
    assert!(!world.is_wf());
    world.balls[0].velocity = [i32::MIN + 1, i32::MAX];
    assert!(world.is_wf());
    assert!(world.balls[0].is_wf());
    assert!(world.can_update(None, None, 1, 0));
    assert!(!world.can_update(None, None, 1, 1));
    world.balls[0] = Ball { x: 0, y: 0, velocity: [1, 1], radius: 0 };
    assert!(!world.balls[0].is_wf());
    assert!(!world.is_wf());
    assert!(!world.can_update(None, None, 1, 1));
    world.balls.clear();
    assert!(world.is_wf());
    assert!(world.can_update(None, None, 1, 1));
    assert!(!world.can_update(Some(i32::MAX), None, i32::MAX, 1));
}

#[test]
fn stages_do_not_depend_on_the_unit_of_length() {
    // The same session in whole units with unit steps of time, and in
    // thousandths with steps of a thousand: velocities are the same numbers.
    let mut coarse = started();
    let mut fine = started();
    fine.arena = Arena { width: 100_000, height: 100_000 };
    for ball in fine.balls.iter_mut() {
        ball.x *= 1000;
        ball.y *= 1000;
        ball.radius *= 1000;
    }
    for paddle in fine.paddles.iter_mut() {
        paddle.x *= 1000;
        paddle.y *= 1000;
        paddle.width *= 1000;
        paddle.height *= 1000;
    }
    for round in 0..200 {
        let left = if round % 5 == 0 { Some(1) } else { Some(-1) };
        let right = if round % 2 == 0 { Some(2) } else { Some(-2) };
        assert!(coarse.can_update(left, right, 3, 1));
        assert!(fine.can_update(left, right, 3, 1000));
        coarse.update(left, right, 3, 1);
        fine.update(left, right, 3, 1000);
        assert_eq!(fine.scores, coarse.scores);
        assert_eq!(fine.text, coarse.text);
        for (f, c) in fine.balls.iter().zip(coarse.balls.iter()) {
            assert_eq!(f.x, c.x * 1000);
            assert_eq!(f.y, c.y * 1000);
            assert_eq!(f.velocity, c.velocity);
        }
        for (f, c) in fine.paddles.iter().zip(coarse.paddles.iter()) {
            assert_eq!(f.y, c.y * 1000);
            assert_eq!(f.x, c.x * 1000);
        }
    }
    assert!(coarse.scores.score_left + coarse.scores.score_right > 0);
}
