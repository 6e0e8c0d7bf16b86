//! The collision stage: a ball bounces off the top and bottom walls and off
//! the paddles, and each paddle bounce counts as a stroke.

use vstd::prelude::*;
use crate::decimal::counter_text;
use crate::pong::{
    paddle_views, raise, raised, Arena, ArenaView, Ball, BallView, Paddle, PaddleView, Play, Pong,
    PongView, ScoreBoard, ScoreBoardView, ScoreText, Side,
};

verus! {

impl BallView {
    /// The ball touches the band along the top wall, or is beyond it.
    pub open spec fn at_top(self, arena: ArenaView) -> bool {
        self.y >= arena.height - self.radius
    }

    /// The ball touches the band along the bottom wall, or is beyond it.
    pub open spec fn at_bottom(self) -> bool {
        self.y <= self.radius
    }

    /// The ball with its vertical velocity inverted.
    pub open spec fn turned_y(self) -> BallView {
        BallView { velocity_y: -self.velocity_y, ..self }
    }

    /// The ball with its horizontal velocity inverted.
    pub open spec fn turned_x(self) -> BallView {
        BallView { velocity_x: -self.velocity_x, ..self }
    }

    /// The wall rule: a ball at the top that moves up, or at the bottom
    /// that moves down, turns; the top is looked at first, and a ball that
    /// turned there is not looked at again.
    pub open spec fn bounce_off_walls(self, arena: ArenaView) -> BallView {
        if self.at_top(arena) && self.velocity_y > 0 {
            self.turned_y()
        } else if self.at_bottom() && self.velocity_y < 0 {
            self.turned_y()
        } else {
            self
        }
    }
}

impl PaddleView {
    /// The centre of the ball lies in the rectangle of the paddle grown by
    /// the radius of the ball on every side, edges included.
    pub open spec fn reaches(self, ball: BallView) -> bool {
        &&& self.x - ball.radius <= ball.x <= self.x + self.width + ball.radius
        &&& self.y - ball.radius <= ball.y <= self.y + self.height + ball.radius
    }

    /// The ball moves towards the wall that the paddle defends.
    pub open spec fn faces(self, ball: BallView) -> bool {
        match self.side {
            Side::Left => ball.velocity_x < 0,
            Side::Right => ball.velocity_x > 0,
        }
    }

    /// The paddle reaches the ball and faces it.
    pub open spec fn strikes(self, ball: BallView) -> bool {
        self.reaches(ball) && self.faces(ball)
    }
}

impl Play {
    /// The paddle rule for one paddle: where it strikes the ball, the ball
    /// turns and the side of the paddle gets a stroke.
    pub open spec fn bounce_off(self, paddle: PaddleView) -> Play {
        if paddle.strikes(self.ball) {
            let scores = self.scores.with_stroke(paddle.side);
            Play {
                ball: self.ball.turned_x(),
                scores,
                text: self.text.with_stroke(
                    paddle.side,
                    scores,
                    self.scores.sets_record(paddle.side),
                ),
            }
        } else {
            self
        }
    }

    /// The paddle rule for the first `n` paddles, in order. Each paddle
    /// meets the ball as the paddles before it left it, so a ball within
    /// reach of paddles of both sides can bounce more than once.
    pub open spec fn bounce_off_first(self, paddles: Seq<PaddleView>, n: nat) -> Play
        decreases n,
    {
        if n == 0 {
            self
        } else {
            self.bounce_off_first(paddles, (n - 1) as nat).bounce_off(paddles[n - 1])
        }
    }

    /// The paddle rule for all the paddles.
    pub open spec fn bounce_off_all(self, paddles: Seq<PaddleView>) -> Play {
        self.bounce_off_first(paddles, paddles.len())
    }

    /// The collision stage for one ball: the wall rule, then the paddle
    /// rule.
    pub open spec fn collide(self, paddles: Seq<PaddleView>, arena: ArenaView) -> Play {
        (Play { ball: self.ball.bounce_off_walls(arena), ..self }).bounce_off_all(paddles)
    }
}

impl PongView {
    /// The collision stage for the first `n` balls, in order.
    pub open spec fn collide_first(self, n: nat) -> PongView
        decreases n,
    {
        if n == 0 {
            self
        } else {
            let before = self.collide_first((n - 1) as nat);
            before.with_play(n - 1, before.play(n - 1).collide(self.paddles, self.arena))
        }
    }

    /// The collision stage.
    pub open spec fn collide(self) -> PongView {
        self.collide_first(self.balls.len())
    }
}

/// The collision stage of a frame.
pub struct BounceSystem;

impl BounceSystem {
    /// Bounces every ball of the session off the walls and the paddles.
    pub fn run(&mut self, world: &mut Pong)
        requires
            old(world).wf(),
        ensures
            final(world)@ == old(world)@.collide(),
            final(world).balls.len() == old(world).balls.len(),
            final(world).paddles.len() == old(world).paddles.len(),
            final(world).wf(),
            old(world).scores.in_range() ==> final(world).scores.in_range(),
            old(world).scores.wf() ==> final(world).scores.wf(),
            old(world)@.text.shows(old(world)@.scores) ==> final(world)@.text.shows(
                final(world)@.scores,
            ),
    {
        proof {
            lemma_collide_stage(world@);
        }
        let ghost start = world@;
        let mut i: usize = 0;
        while i < world.balls.len()
            invariant
                i <= world.balls.len(),
                world.balls.len() == start.balls.len(),
                world@ == start.collide_first(i as nat),
                world@.paddles == start.paddles,
                world@.arena == start.arena,
                world.wf(),
            decreases world.balls.len() - i,
        {
            let ghost before = world@;
            let mut ball = world.balls[i];
            assert(ball@ == world@.balls[i as int]);
            bounce(&mut ball, &world.paddles, &world.arena, &mut world.scores, &mut world.text);
            world.balls.set(i, ball);
            assert(world@.balls =~= before.balls.update(i as int, ball@));
            i += 1;
        }
    }
}

/// The collision stage for one ball.
fn bounce(
    ball: &mut Ball,
    paddles: &Vec<Paddle>,
    arena: &Arena,
    scores: &mut ScoreBoard,
    text: &mut ScoreText,
)
    requires
        old(ball).wf(),
    ensures
        (Play { ball: final(ball)@, scores: final(scores)@, text: final(text)@ }) == (Play {
            ball: old(ball)@,
            scores: old(scores)@,
            text: old(text)@,
        }).collide(paddle_views(paddles@), arena@),
        final(ball).wf(),
{
    let ghost views = paddle_views(paddles@);
    bounce_off_walls(ball, arena);
    let ghost walled = Play { ball: ball@, scores: scores@, text: text@ };
    let mut j: usize = 0;
    while j < paddles.len()
        invariant
            j <= paddles.len(),
            views == paddle_views(paddles@),
            (Play { ball: ball@, scores: scores@, text: text@ }) == walled.bounce_off_first(
                views,
                j as nat,
            ),
            ball.wf(),
        decreases paddles.len() - j,
    {
        bounce_off(ball, &paddles[j], scores, text);
        j += 1;
    }
}

/// The wall rule.
fn bounce_off_walls(ball: &mut Ball, arena: &Arena)
    requires
        old(ball).wf(),
    ensures
        final(ball)@ == old(ball)@.bounce_off_walls(arena@),
        final(ball).wf(),
{
    let y = ball.y as i64;
    let radius = ball.radius as i64;
    if y >= arena.height as i64 - radius && ball.velocity[1] > 0 {
        ball.velocity[1] = -ball.velocity[1];
    } else if y <= radius && ball.velocity[1] < 0 {
        ball.velocity[1] = -ball.velocity[1];
    }
}

/// The paddle rule for one paddle.
fn bounce_off(ball: &mut Ball, paddle: &Paddle, scores: &mut ScoreBoard, text: &mut ScoreText)
    requires
        old(ball).wf(),
    ensures
        (Play { ball: final(ball)@, scores: final(scores)@, text: final(text)@ }) == (Play {
            ball: old(ball)@,
            scores: old(scores)@,
            text: old(text)@,
        }).bounce_off(paddle@),
        final(ball).wf(),
{
    if reaches(paddle, ball) {
        if paddle.side == Side::Left && ball.velocity[0] < 0 {
            ball.velocity[0] = -ball.velocity[0];
            scores.stroke_left = raise(scores.stroke_left);
            text.p1_stroke = counter_text(scores.stroke_left);
            if scores.stroke_left >= scores.stroke_max_left {
                scores.stroke_max_left = scores.stroke_left;
                text.p1_max_stroke = counter_text(scores.stroke_max_left);
            }
        } else if paddle.side == Side::Right && ball.velocity[0] > 0 {
            ball.velocity[0] = -ball.velocity[0];
            scores.stroke_right = raise(scores.stroke_right);
            text.p2_stroke = counter_text(scores.stroke_right);
            if scores.stroke_right >= scores.stroke_max_right {
                scores.stroke_max_right = scores.stroke_right;
                text.p2_max_stroke = counter_text(scores.stroke_max_right);
            }
        }
    }
}

/// Tells whether the paddle reaches the ball.
fn reaches(paddle: &Paddle, ball: &Ball) -> (hit: bool)
    ensures
        hit == paddle@.reaches(ball@),
{
    let radius = ball.radius as i64;
    let left = paddle.x as i64 - radius;
    let bottom = paddle.y as i64 - radius;
    let right = paddle.x as i64 + paddle.width as i64 + radius;
    let top = paddle.y as i64 + paddle.height as i64 + radius;
    point_in_rect(ball.x as i64, ball.y as i64, left, bottom, right, top)
}

/// A point is in a rectangle when it is neither left of nor below the
/// bottom-left corner, and neither right of nor above the top-right one.
fn point_in_rect(x: i64, y: i64, left: i64, bottom: i64, right: i64, top: i64) -> (inside: bool)
    ensures
        inside == (left <= x <= right && bottom <= y <= top),
{
    x >= left && x <= right && y >= bottom && y <= top
}

/// A ball at a wall that moves into it turns: its vertical velocity is
/// inverted, and nothing else of it changes.
pub proof fn lemma_wall_turns_ball(ball: BallView, arena: ArenaView)
    requires
        (ball.at_top(arena) && ball.velocity_y > 0) || (ball.at_bottom() && ball.velocity_y < 0),
    ensures
        ball.bounce_off_walls(arena) == ball.turned_y(),
        ball.bounce_off_walls(arena).velocity_y == -ball.velocity_y,
{
}

/// A ball that a wall turned is left alone when the wall rule is applied
/// again at the same position: it now moves away from that wall. This needs
/// the bands of the two walls to be apart at the height of the ball.
pub proof fn lemma_wall_turns_ball_once(ball: BallView, arena: ArenaView)
    requires
        (ball.at_top(arena) && ball.velocity_y > 0) || (ball.at_bottom() && ball.velocity_y < 0),
        !(ball.at_top(arena) && ball.at_bottom()),
    ensures
        ball.bounce_off_walls(arena).bounce_off_walls(arena) == ball.bounce_off_walls(arena),
{
}

/// Paddles that do not strike the ball leave the ball, the board and the
/// display as they are.
pub proof fn lemma_no_strike_no_bounce(play: Play, paddles: Seq<PaddleView>)
    requires
        forall|i: int| 0 <= i < paddles.len() ==> !(#[trigger] paddles[i]).strikes(play.ball),
    ensures
        play.bounce_off_all(paddles) == play,
{
    lemma_no_strike_among(play, paddles, paddles.len());
}

proof fn lemma_no_strike_among(play: Play, paddles: Seq<PaddleView>, n: nat)
    requires
        n <= paddles.len(),
        forall|i: int| 0 <= i < n ==> !(#[trigger] paddles[i]).strikes(play.ball),
    ensures
        play.bounce_off_first(paddles, n) == play,
    decreases n,
{
    if n > 0 {
        lemma_no_strike_among(play, paddles, (n - 1) as nat);
    }
}

/// A ball outside the grown rectangle of every paddle keeps its horizontal
/// velocity through the collision stage, and the stage leaves the board and
/// the display as they are.
pub proof fn lemma_out_of_reach(play: Play, paddles: Seq<PaddleView>, arena: ArenaView)
    requires
        forall|i: int| 0 <= i < paddles.len() ==> !(#[trigger] paddles[i]).reaches(play.ball),
    ensures
        play.collide(paddles, arena) == (Play { ball: play.ball.bounce_off_walls(arena), ..play }),
        play.collide(paddles, arena).ball.velocity_x == play.ball.velocity_x,
        play.collide(paddles, arena).scores == play.scores,
        play.collide(paddles, arena).text == play.text,
{
    let walled = Play { ball: play.ball.bounce_off_walls(arena), ..play };
    assert forall|i: int| 0 <= i < paddles.len() implies !(#[trigger] paddles[i]).strikes(
        walled.ball,
    ) by {
        assert(!paddles[i].reaches(play.ball));
    }
    lemma_no_strike_no_bounce(walled, paddles);
}

/// A ball that moves left within reach of a left paddle turns, and the left
/// side gets a stroke: its stroke count goes up by one but not above the
/// ceiling, and its record becomes the new count where the new count is not
/// below it. Nothing else on the board changes.
pub proof fn lemma_left_paddle_stroke(play: Play, paddle: PaddleView)
    requires
        paddle.side == Side::Left,
        paddle.reaches(play.ball),
        play.ball.velocity_x < 0,
    ensures
        play.bounce_off(paddle).ball == play.ball.turned_x(),
        play.bounce_off(paddle).ball.velocity_x == -play.ball.velocity_x,
        play.bounce_off(paddle).scores.stroke_left == raised(play.scores.stroke_left),
        play.bounce_off(paddle).scores.stroke_max_left == if raised(play.scores.stroke_left)
            >= play.scores.stroke_max_left {
            raised(play.scores.stroke_left)
        } else {
            play.scores.stroke_max_left
        },
        play.bounce_off(paddle).scores == (ScoreBoardView {
            stroke_left: play.bounce_off(paddle).scores.stroke_left,
            stroke_max_left: play.bounce_off(paddle).scores.stroke_max_left,
            ..play.scores
        }),
{
}

/// A ball that moves right within reach of a right paddle turns, and the
/// right side gets a stroke, counted as on the left.
pub proof fn lemma_right_paddle_stroke(play: Play, paddle: PaddleView)
    requires
        paddle.side == Side::Right,
        paddle.reaches(play.ball),
        play.ball.velocity_x > 0,
    ensures
        play.bounce_off(paddle).ball == play.ball.turned_x(),
        play.bounce_off(paddle).ball.velocity_x == -play.ball.velocity_x,
        play.bounce_off(paddle).scores.stroke_right == raised(play.scores.stroke_right),
        play.bounce_off(paddle).scores.stroke_max_right == if raised(play.scores.stroke_right)
            >= play.scores.stroke_max_right {
            raised(play.scores.stroke_right)
        } else {
            play.scores.stroke_max_right
        },
        play.bounce_off(paddle).scores == (ScoreBoardView {
            stroke_right: play.bounce_off(paddle).scores.stroke_right,
            stroke_max_right: play.bounce_off(paddle).scores.stroke_max_right,
            ..play.scores
        }),
{
}

/// A ball that a paddle struck moves away from that paddle and from every
/// paddle of its side, so none of them strikes it again.
pub proof fn lemma_struck_ball_moves_away(play: Play, paddle: PaddleView, other: PaddleView)
    requires
        paddle.strikes(play.ball),
        other.side == paddle.side,
    ensures
        !other.strikes(play.bounce_off(paddle).ball),
        play.bounce_off(paddle).bounce_off(other) == play.bounce_off(paddle),
{
}

/// The first paddle that strikes the ball is the only one, unless a paddle
/// of the other side that comes later reaches the ball too: the paddle rule
/// for all the paddles is then the bounce off that first paddle.
pub proof fn lemma_first_strike_wins(play: Play, paddles: Seq<PaddleView>, k: int)
    requires
        0 <= k < paddles.len(),
        paddles[k].strikes(play.ball),
        forall|i: int| 0 <= i < k ==> !(#[trigger] paddles[i]).strikes(play.ball),
        forall|i: int|
            k < i < paddles.len() && (#[trigger] paddles[i]).reaches(play.ball) ==> paddles[i].side
                == paddles[k].side,
    ensures
        play.bounce_off_all(paddles) == play.bounce_off(paddles[k]),
{
    lemma_first_strike_among(play, paddles, k, paddles.len());
}

proof fn lemma_first_strike_among(play: Play, paddles: Seq<PaddleView>, k: int, n: nat)
    requires
        0 <= k < n <= paddles.len(),
        paddles[k].strikes(play.ball),
        forall|i: int| 0 <= i < k ==> !(#[trigger] paddles[i]).strikes(play.ball),
        forall|i: int|
            k < i < n && (#[trigger] paddles[i]).reaches(play.ball) ==> paddles[i].side
                == paddles[k].side,
    ensures
        play.bounce_off_first(paddles, n) == play.bounce_off(paddles[k]),
    decreases n,
{
    if n == k + 1 {
        lemma_no_strike_among(play, paddles, k as nat);
    } else {
        lemma_first_strike_among(play, paddles, k, (n - 1) as nat);
        let last = paddles[n - 1];
        if last.reaches(play.ball) {
            lemma_struck_ball_moves_away(play, paddles[k], last);
        }
    }
}

/// The collision stage gives a ball exactly one stroke, where a paddle of
/// `side` strikes it and no paddle of the other side reaches it: the ball
/// turns once, and the board and the display take that one stroke.
pub proof fn lemma_collide_stroke(
    play: Play,
    paddles: Seq<PaddleView>,
    arena: ArenaView,
    side: Side,
    k: int,
)
    requires
        0 <= k < paddles.len(),
        paddles[k].side == side,
        paddles[k].strikes(play.ball),
        forall|i: int|
            0 <= i < paddles.len() && (#[trigger] paddles[i]).reaches(play.ball) ==> paddles[i].side
                == side,
    ensures
        play.collide(paddles, arena).ball == play.ball.bounce_off_walls(arena).turned_x(),
        play.collide(paddles, arena).ball.velocity_x == -play.ball.velocity_x,
        play.collide(paddles, arena).scores == play.scores.with_stroke(side),
        play.collide(paddles, arena).text == play.text.with_stroke(
            side,
            play.scores.with_stroke(side),
            play.scores.sets_record(side),
        ),
{
    let walled = Play { ball: play.ball.bounce_off_walls(arena), ..play };
    assert(paddles[k].strikes(walled.ball));
    let first = first_strike(walled, paddles, paddles.len());
    assert(paddles[first].reaches(play.ball));
    assert forall|i: int|
        first < i < paddles.len() && (#[trigger] paddles[i]).reaches(walled.ball) implies paddles[i].side
        == paddles[first].side by {
        assert(paddles[i].reaches(play.ball));
    }
    lemma_first_strike_wins(walled, paddles, first);
}

/// No paddle of one side reaches the ball while a paddle of the other side
/// reaches it too.
pub open spec fn one_sided(paddles: Seq<PaddleView>, ball: BallView) -> bool {
    forall|i: int, j: int|
        0 <= i < paddles.len() && 0 <= j < paddles.len() && (#[trigger] paddles[i]).reaches(ball)
            && (#[trigger] paddles[j]).reaches(ball) ==> paddles[i].side == paddles[j].side
}

/// After the paddle rule for all the paddles, no paddle strikes the ball,
/// where the ball is at rest horizontally or within reach of paddles of
/// one side only.
pub proof fn lemma_paddles_settle(play: Play, paddles: Seq<PaddleView>)
    requires
        play.ball.velocity_x == 0 || one_sided(paddles, play.ball),
    ensures
        forall|i: int|
            0 <= i < paddles.len() ==> !(#[trigger] paddles[i]).strikes(
                play.bounce_off_all(paddles).ball,
            ),
{
    let after = play.bounce_off_all(paddles);
    if exists|k: int| 0 <= k < paddles.len() && (#[trigger] paddles[k]).strikes(play.ball) {
        let k = first_strike(play, paddles, paddles.len());
        lemma_first_strike_wins(play, paddles, k);
        assert forall|i: int| 0 <= i < paddles.len() implies !(#[trigger] paddles[i]).strikes(
            after.ball,
        ) by {
            if paddles[i].reaches(play.ball) {
                lemma_struck_ball_moves_away(play, paddles[k], paddles[i]);
            }
        }
    } else {
        lemma_no_strike_no_bounce(play, paddles);
    }
}

/// The index of the first of the first `n` paddles that strikes the ball.
proof fn first_strike(play: Play, paddles: Seq<PaddleView>, n: nat) -> (k: int)
    requires
        n <= paddles.len(),
        exists|k: int| 0 <= k < n && (#[trigger] paddles[k]).strikes(play.ball),
    ensures
        0 <= k < n,
        paddles[k].strikes(play.ball),
        forall|i: int| 0 <= i < k ==> !(#[trigger] paddles[i]).strikes(play.ball),
    decreases n,
{
    if exists|k: int| 0 <= k < n - 1 && (#[trigger] paddles[k]).strikes(play.ball) {
        first_strike(play, paddles, (n - 1) as nat)
    } else {
        n - 1
    }
}

/// The paddle rule leaves a ball where it is and changes at most the sign
/// of its horizontal velocity, whatever the board and the display hold.
pub proof fn lemma_paddles_keep_course(play: Play, other: Play, paddles: Seq<PaddleView>)
    requires
        play.ball == other.ball,
    ensures
        play.bounce_off_all(paddles).ball == play.ball || play.bounce_off_all(paddles).ball
            == play.ball.turned_x(),
        play.bounce_off_all(paddles).ball == other.bounce_off_all(paddles).ball,
{
    lemma_course_among(play, other, paddles, paddles.len());
}

proof fn lemma_course_among(play: Play, other: Play, paddles: Seq<PaddleView>, n: nat)
    requires
        play.ball == other.ball,
        n <= paddles.len(),
    ensures
        play.bounce_off_first(paddles, n).ball == play.ball || play.bounce_off_first(
            paddles,
            n,
        ).ball == play.ball.turned_x(),
        play.bounce_off_first(paddles, n).ball == other.bounce_off_first(paddles, n).ball,
    decreases n,
{
    if n > 0 {
        lemma_course_among(play, other, paddles, (n - 1) as nat);
    }
}

/// Once the collision stage has run for a ball, the ball moves away from
/// every wall and paddle that turned it: no paddle strikes it, the wall
/// rule leaves it alone, and a second run of the stage changes nothing.
/// This needs the ball to be at rest horizontally or within reach of
/// paddles of one side only, and at rest vertically or outside the band of
/// one of the two walls.
pub proof fn lemma_collide_settles(play: Play, paddles: Seq<PaddleView>, arena: ArenaView)
    requires
        play.ball.velocity_x == 0 || one_sided(paddles, play.ball),
        play.ball.velocity_y == 0 || !(play.ball.at_top(arena) && play.ball.at_bottom()),
    ensures
        forall|i: int|
            0 <= i < paddles.len() ==> !(#[trigger] paddles[i]).strikes(
                play.collide(paddles, arena).ball,
            ),
        play.collide(paddles, arena).ball.bounce_off_walls(arena) == play.collide(
            paddles,
            arena,
        ).ball,
        play.collide(paddles, arena).collide(paddles, arena) == play.collide(paddles, arena),
{
    let walled = Play { ball: play.ball.bounce_off_walls(arena), ..play };
    let after = play.collide(paddles, arena);
    lemma_paddles_settle(walled, paddles);
    lemma_paddles_keep_course(walled, walled, paddles);
    assert(after.ball.bounce_off_walls(arena) == after.ball);
    lemma_no_strike_no_bounce(after, paddles);
}

/// The collision stage leaves a ball where it is and as large as it is,
/// and a well-formed ball well formed.
pub proof fn lemma_collide_keeps_ball(play: Play, paddles: Seq<PaddleView>, arena: ArenaView)
    ensures
        play.collide(paddles, arena).ball.x == play.ball.x,
        play.collide(paddles, arena).ball.y == play.ball.y,
        play.collide(paddles, arena).ball.radius == play.ball.radius,
        play.ball.wf() ==> play.collide(paddles, arena).ball.wf(),
{
    let walled = Play { ball: play.ball.bounce_off_walls(arena), ..play };
    lemma_paddles_keep_course(walled, walled, paddles);
}

/// The collision stage keeps what holds of the board and the display: the
/// counters stay in range, no stroke count passes its record, and the
/// slots go on showing the board.
pub proof fn lemma_collide_keeps_board(play: Play, paddles: Seq<PaddleView>, arena: ArenaView)
    ensures
        play.scores.in_range() ==> play.collide(paddles, arena).scores.in_range(),
        play.scores.wf() ==> play.collide(paddles, arena).scores.wf(),
        play.text.shows(play.scores) ==> play.collide(paddles, arena).text.shows(
            play.collide(paddles, arena).scores,
        ),
{
    lemma_board_among(Play { ball: play.ball.bounce_off_walls(arena), ..play }, paddles, paddles.len());
}

proof fn lemma_board_among(play: Play, paddles: Seq<PaddleView>, n: nat)
    requires
        n <= paddles.len(),
    ensures
        play.scores.in_range() ==> play.bounce_off_first(paddles, n).scores.in_range(),
        play.scores.wf() ==> play.bounce_off_first(paddles, n).scores.wf(),
        play.text.shows(play.scores) ==> play.bounce_off_first(paddles, n).text.shows(
            play.bounce_off_first(paddles, n).scores,
        ),
    decreases n,
{
    if n > 0 {
        lemma_board_among(play, paddles, (n - 1) as nat);
    }
}

/// The collision stage of a session moves nothing and changes no paddle.
/// Each ball takes the course that the stage for one ball gives it,
/// whatever the other balls do. The stage keeps what holds of the board and
/// the display.
pub proof fn lemma_collide_stage(world: PongView)
    ensures
        world.collide().arena == world.arena,
        world.collide().paddles == world.paddles,
        world.collide().balls.len() == world.balls.len(),
        forall|i: int|
            0 <= i < world.balls.len() ==> (#[trigger] world.collide().balls[i]) == world.play(
                i,
            ).collide(world.paddles, world.arena).ball,
        world.scores.in_range() ==> world.collide().scores.in_range(),
        world.scores.wf() ==> world.collide().scores.wf(),
        world.text.shows(world.scores) ==> world.collide().text.shows(world.collide().scores),
{
    lemma_collide_among(world, world.balls.len());
}

proof fn lemma_collide_among(world: PongView, n: nat)
    requires
        n <= world.balls.len(),
    ensures
        world.collide_first(n).arena == world.arena,
        world.collide_first(n).paddles == world.paddles,
        world.collide_first(n).balls.len() == world.balls.len(),
        forall|i: int|
            0 <= i < n ==> (#[trigger] world.collide_first(n).balls[i]) == world.play(i).collide(
                world.paddles,
                world.arena,
            ).ball,
        forall|i: int|
            n <= i < world.balls.len() ==> (#[trigger] world.collide_first(n).balls[i])
                == world.balls[i],
        world.scores.in_range() ==> world.collide_first(n).scores.in_range(),
        world.scores.wf() ==> world.collide_first(n).scores.wf(),
        world.text.shows(world.scores) ==> world.collide_first(n).text.shows(
            world.collide_first(n).scores,
        ),
    decreases n,
{
    if n > 0 {
        lemma_collide_among(world, (n - 1) as nat);
        let before = world.collide_first((n - 1) as nat);
        let walled = Play {
            ball: before.play(n - 1).ball.bounce_off_walls(world.arena),
            ..before.play(n - 1)
        };
        let alone = Play {
            ball: world.play(n - 1).ball.bounce_off_walls(world.arena),
            ..world.play(n - 1)
        };
        lemma_paddles_keep_course(walled, alone, world.paddles);
        lemma_collide_keeps_board(before.play(n - 1), world.paddles, world.arena);
    }
}

/// For a session of one ball, the collision stage is the collision stage
/// for that ball.
pub proof fn lemma_collide_single_ball(world: PongView)
    requires
        world.balls.len() == 1,
    ensures
        world.collide() == world.with_play(0, world.play(0).collide(world.paddles, world.arena)),
{
    reveal_with_fuel(PongView::collide_first, 2);
}

/// Where no wall turns a ball and no paddle strikes one, the collision
/// stage of a session changes nothing.
pub proof fn lemma_collide_stage_at_rest(world: PongView)
    requires
        forall|i: int|
            0 <= i < world.balls.len() ==> (#[trigger] world.balls[i]).bounce_off_walls(world.arena)
                == world.balls[i],
        forall|i: int, j: int|
            0 <= i < world.balls.len() && 0 <= j < world.paddles.len() ==> !(
            #[trigger] world.paddles[j]).strikes(#[trigger] world.balls[i]),
    ensures
        world.collide() == world,
{
    lemma_at_rest_among(world, world.balls.len());
}

proof fn lemma_at_rest_among(world: PongView, n: nat)
    requires
        n <= world.balls.len(),
        forall|i: int|
            0 <= i < world.balls.len() ==> (#[trigger] world.balls[i]).bounce_off_walls(world.arena)
                == world.balls[i],
        forall|i: int, j: int|
            0 <= i < world.balls.len() && 0 <= j < world.paddles.len() ==> !(
            #[trigger] world.paddles[j]).strikes(#[trigger] world.balls[i]),
    ensures
        world.collide_first(n) == world,
    decreases n,
{
    if n > 0 {
        lemma_at_rest_among(world, (n - 1) as nat);
        let play = world.play(n - 1);
        assert(play.ball.bounce_off_walls(world.arena) == play.ball);
        assert forall|j: int| 0 <= j < world.paddles.len() implies !(
        #[trigger] world.paddles[j]).strikes(play.ball) by {
            assert(!world.paddles[j].strikes(world.balls[n - 1]));
        }
        lemma_no_strike_no_bounce(play, world.paddles);
        assert(world.balls.update(n - 1, play.ball) =~= world.balls);
    }
}

/// Where no paddle reaches any ball, the collision stage of a session
/// leaves the board, the display and the horizontal velocity of every ball
/// as they are.
pub proof fn lemma_collide_stage_out_of_reach(world: PongView)
    requires
        forall|i: int, j: int|
            0 <= i < world.balls.len() && 0 <= j < world.paddles.len() ==> !(
            #[trigger] world.paddles[j]).reaches(#[trigger] world.balls[i]),
    ensures
        world.collide().scores == world.scores,
        world.collide().text == world.text,
        forall|i: int|
            0 <= i < world.balls.len() ==> (#[trigger] world.collide().balls[i]).velocity_x
                == world.balls[i].velocity_x,
{
    lemma_out_of_reach_among(world, world.balls.len());
}

proof fn lemma_out_of_reach_among(world: PongView, n: nat)
    requires
        n <= world.balls.len(),
        forall|i: int, j: int|
            0 <= i < world.balls.len() && 0 <= j < world.paddles.len() ==> !(
            #[trigger] world.paddles[j]).reaches(#[trigger] world.balls[i]),
    ensures
        world.collide_first(n).scores == world.scores,
        world.collide_first(n).text == world.text,
        world.collide_first(n).balls.len() == world.balls.len(),
        forall|i: int|
            0 <= i < world.balls.len() ==> (#[trigger] world.collide_first(n).balls[i]).velocity_x
                == world.balls[i].velocity_x,
        forall|i: int|
            n <= i < world.balls.len() ==> (#[trigger] world.collide_first(n).balls[i])
                == world.balls[i],
    decreases n,
{
    if n > 0 {
        lemma_out_of_reach_among(world, (n - 1) as nat);
        let before = world.collide_first((n - 1) as nat);
        assert(before.balls[n - 1] == world.balls[n - 1]);
        assert forall|j: int| 0 <= j < world.paddles.len() implies !(
        #[trigger] world.paddles[j]).reaches(before.play(n - 1).ball) by {
            assert(!world.paddles[j].reaches(world.balls[n - 1]));
        }
        lemma_out_of_reach(before.play(n - 1), world.paddles, world.arena);
    }
}

/// A second run of the collision stage of a session changes nothing, where
/// every ball is at rest horizontally or within reach of paddles of one
/// side only, and at rest vertically or outside the band of one of the two
/// walls.
pub proof fn lemma_collide_stage_settles(world: PongView)
    requires
        forall|i: int|
            0 <= i < world.balls.len() ==> (#[trigger] world.balls[i]).velocity_x == 0 || one_sided(
                world.paddles,
                world.balls[i],
            ),
        forall|i: int|
            0 <= i < world.balls.len() ==> (#[trigger] world.balls[i]).velocity_y == 0 || !(
            world.balls[i].at_top(world.arena) && world.balls[i].at_bottom()),
    ensures
        world.collide().collide() == world.collide(),
{
    let after = world.collide();
    lemma_collide_stage(world);
    assert forall|i: int| 0 <= i < after.balls.len() implies (#[trigger] after.balls[i]).bounce_off_walls(
        after.arena,
    ) == after.balls[i] by {
        assert(world.balls[i].velocity_x == 0 || one_sided(world.paddles, world.balls[i]));
        lemma_collide_settles(world.play(i), world.paddles, world.arena);
    }
    assert forall|i: int, j: int|
        0 <= i < after.balls.len() && 0 <= j < after.paddles.len() implies !(
    #[trigger] after.paddles[j]).strikes(#[trigger] after.balls[i]) by {
        assert(world.balls[i].velocity_x == 0 || one_sided(world.paddles, world.balls[i]));
        lemma_collide_settles(world.play(i), world.paddles, world.arena);
    }
    lemma_collide_stage_at_rest(after);
}

} // verus!
