//! The scoring stage: a ball that reaches a side wall gives the other side
//! a point and is served again from the middle.

use vstd::prelude::*;
use crate::decimal::counter_text;
use crate::pong::{
    raise, raised, Arena, ArenaView, Ball, BallView, Play, Pong, PongView, ScoreBoard,
    ScoreBoardView, ScoreText, Side,
};

verus! {

impl BallView {
    /// The ball touches the band along the left wall, or is beyond it.
    pub open spec fn at_left(self) -> bool {
        self.x <= self.radius
    }

    /// The ball touches the band along the right wall, or is beyond it.
    pub open spec fn at_right(self, arena: ArenaView) -> bool {
        self.x >= arena.width - self.radius
    }

    /// The side that the ball gives a point to, if any: the right side for
    /// a ball at the left wall, else the left side for a ball at the right
    /// wall.
    pub open spec fn point_for(self, arena: ArenaView) -> Option<Side> {
        if self.at_left() {
            Some(Side::Right)
        } else if self.at_right(arena) {
            Some(Side::Left)
        } else {
            None
        }
    }

    /// The ball as it is served after a point: back at the middle of the
    /// arena's width and turned, at the height and with the vertical
    /// velocity that it had.
    pub open spec fn served(self, arena: ArenaView) -> BallView {
        BallView { x: arena.centre_x(), velocity_x: -self.velocity_x, ..self }
    }
}

impl Play {
    /// The scoring stage for one ball.
    pub open spec fn score(self, arena: ArenaView) -> Play {
        match self.ball.point_for(arena) {
            Some(side) => {
                let scores = self.scores.with_point(side);
                Play {
                    ball: self.ball.served(arena),
                    scores,
                    text: self.text.with_point(side, scores),
                }
            },
            None => self,
        }
    }
}

impl PongView {
    /// The scoring stage for the first `n` balls, in order.
    pub open spec fn score_first(self, n: nat) -> PongView
        decreases n,
    {
        if n == 0 {
            self
        } else {
            let before = self.score_first((n - 1) as nat);
            before.with_play(n - 1, before.play(n - 1).score(self.arena))
        }
    }

    /// The scoring stage.
    pub open spec fn score(self) -> PongView {
        self.score_first(self.balls.len())
    }
}

/// The scoring stage of a frame.
pub struct WinnerSystem;

impl WinnerSystem {
    /// Awards the point of every ball of the session that reached a side
    /// wall, and serves that ball again.
    pub fn run(&mut self, world: &mut Pong)
        requires
            old(world).wf(),
        ensures
            final(world)@ == old(world)@.score(),
            final(world).balls.len() == old(world).balls.len(),
            final(world).paddles.len() == old(world).paddles.len(),
            final(world).wf(),
            old(world).scores.in_range() ==> final(world).scores.in_range(),
            old(world).scores.wf() ==> final(world).scores.wf(),
            old(world)@.text.shows(old(world)@.scores) ==> final(world)@.text.shows(
                final(world)@.scores,
            ),
    {
        proof {
            lemma_score_stage(world@);
        }
        let ghost start = world@;
        let mut i: usize = 0;
        while i < world.balls.len()
            invariant
                i <= world.balls.len(),
                world.balls.len() == start.balls.len(),
                world@ == start.score_first(i as nat),
                world@.arena == start.arena,
                world.paddles.len() == start.paddles.len(),
                world.wf(),
            decreases world.balls.len() - i,
        {
            let ghost before = world@;
            let mut ball = world.balls[i];
            assert(ball@ == world@.balls[i as int]);
            score(&mut ball, &world.arena, &mut world.scores, &mut world.text);
            world.balls.set(i, ball);
            assert(world@.balls =~= before.balls.update(i as int, ball@));
            i += 1;
        }
    }
}

/// The scoring stage for one ball.
fn score(ball: &mut Ball, arena: &Arena, scores: &mut ScoreBoard, text: &mut ScoreText)
    requires
        old(ball).wf(),
    ensures
        (Play { ball: final(ball)@, scores: final(scores)@, text: final(text)@ }) == (Play {
            ball: old(ball)@,
            scores: old(scores)@,
            text: old(text)@,
        }).score(arena@),
        final(ball).wf(),
{
    let x = ball.x as i64;
    let radius = ball.radius as i64;
    let did_hit = if x <= radius {
        scores.score_right = raise(scores.score_right);
        text.p2_score = counter_text(scores.score_right);
        true
    } else if x >= arena.width as i64 - radius {
        scores.score_left = raise(scores.score_left);
        text.p1_score = counter_text(scores.score_left);
        true
    } else {
        false
    };
    if did_hit {
        ball.velocity[0] = -ball.velocity[0];
        ball.x = (arena.width / 2) as i32;
        text.p2_score = counter_text(scores.score_right);
        scores.stroke_left = 0;
        scores.stroke_right = 0;
        text.p1_stroke = counter_text(scores.stroke_left);
        text.p2_stroke = counter_text(scores.stroke_right);
    }
}

/// A ball at the left wall gives the right side a point: the score of the
/// right side goes up by one but not above the ceiling, the ball turns and
/// is back at the middle of the arena's width, and both stroke counts are
/// zero. The ball keeps its height and its vertical velocity, and nothing
/// else on the board changes.
pub proof fn lemma_right_side_scores(play: Play, arena: ArenaView)
    requires
        play.ball.x <= play.ball.radius,
    ensures
        play.score(arena).scores.score_right == raised(play.scores.score_right),
        play.score(arena).ball.velocity_x == -play.ball.velocity_x,
        play.score(arena).ball.x == arena.width / 2,
        play.score(arena).scores.stroke_left == 0,
        play.score(arena).scores.stroke_right == 0,
        play.score(arena).ball == (BallView {
            x: arena.width / 2,
            velocity_x: -play.ball.velocity_x,
            ..play.ball
        }),
        play.score(arena).scores == (ScoreBoardView {
            score_right: raised(play.scores.score_right),
            stroke_left: 0,
            stroke_right: 0,
            ..play.scores
        }),
{
}

/// A ball at the right wall that is not at the left wall too gives the left
/// side a point, in the same way.
pub proof fn lemma_left_side_scores(play: Play, arena: ArenaView)
    requires
        play.ball.x > play.ball.radius,
        play.ball.x >= arena.width - play.ball.radius,
    ensures
        play.score(arena).ball == (BallView {
            x: arena.width / 2,
            velocity_x: -play.ball.velocity_x,
            ..play.ball
        }),
        play.score(arena).scores == (ScoreBoardView {
            score_left: raised(play.scores.score_left),
            stroke_left: 0,
            stroke_right: 0,
            ..play.scores
        }),
{
}

/// A ball between the two side walls gives no point: the scoring stage
/// changes nothing.
pub proof fn lemma_ball_in_play(play: Play, arena: ArenaView)
    requires
        play.ball.radius < play.ball.x < arena.width - play.ball.radius,
    ensures
        play.score(arena) == play,
{
}

/// What the scoring stage does is the same at every height and vertical
/// velocity of the ball, and it leaves both as they are.
pub proof fn lemma_score_ignores_height(play: Play, arena: ArenaView, y: int, velocity_y: int)
    ensures
        (Play { ball: BallView { y, velocity_y, ..play.ball }, ..play }).score(arena) == (Play {
            ball: BallView { y, velocity_y, ..play.score(arena).ball },
            ..play.score(arena)
        }),
        play.score(arena).ball.y == play.ball.y,
        play.score(arena).ball.velocity_y == play.ball.velocity_y,
{
}

/// A ball that was served is between the side walls, where its radius is
/// less than half the arena's width: a second run of the scoring stage
/// changes nothing.
pub proof fn lemma_score_settles(play: Play, arena: ArenaView)
    requires
        play.ball.radius < arena.width / 2,
    ensures
        play.score(arena).ball.point_for(arena) is None,
        play.score(arena).score(arena) == play.score(arena),
{
}

/// The scoring stage keeps what holds of the board and the display: the
/// counters stay in range, no stroke count passes its record, and the
/// slots go on showing the board.
pub proof fn lemma_score_keeps_board(play: Play, arena: ArenaView)
    ensures
        play.scores.in_range() ==> play.score(arena).scores.in_range(),
        play.scores.wf() ==> play.score(arena).scores.wf(),
        play.text.shows(play.scores) ==> play.score(arena).text.shows(play.score(arena).scores),
{
}

/// For a session of one ball, the scoring stage is the scoring stage for
/// that ball.
pub proof fn lemma_score_single_ball(world: PongView)
    requires
        world.balls.len() == 1,
    ensures
        world.score() == world.with_play(0, world.play(0).score(world.arena)),
{
    reveal_with_fuel(PongView::score_first, 2);
}

/// The scoring stage of a session changes no paddle and not the arena.
/// Each ball is served or left as the stage for one ball says, whatever the
/// other balls do. The stage keeps what holds of the board and the display.
pub proof fn lemma_score_stage(world: PongView)
    ensures
        world.score().arena == world.arena,
        world.score().paddles == world.paddles,
        world.score().balls.len() == world.balls.len(),
        forall|i: int|
            0 <= i < world.balls.len() ==> (#[trigger] world.score().balls[i]) == world.play(
                i,
            ).score(world.arena).ball,
        world.scores.in_range() ==> world.score().scores.in_range(),
        world.scores.wf() ==> world.score().scores.wf(),
        world.text.shows(world.scores) ==> world.score().text.shows(world.score().scores),
{
    lemma_score_among(world, world.balls.len());
}

proof fn lemma_score_among(world: PongView, n: nat)
    requires
        n <= world.balls.len(),
    ensures
        world.score_first(n).arena == world.arena,
        world.score_first(n).paddles == world.paddles,
        world.score_first(n).balls.len() == world.balls.len(),
        forall|i: int|
            0 <= i < n ==> (#[trigger] world.score_first(n).balls[i]) == world.play(i).score(
                world.arena,
            ).ball,
        forall|i: int|
            n <= i < world.balls.len() ==> (#[trigger] world.score_first(n).balls[i])
                == world.balls[i],
        world.scores.in_range() ==> world.score_first(n).scores.in_range(),
        world.scores.wf() ==> world.score_first(n).scores.wf(),
        world.text.shows(world.scores) ==> world.score_first(n).text.shows(
            world.score_first(n).scores,
        ),
    decreases n,
{
    if n > 0 {
        lemma_score_among(world, (n - 1) as nat);
        let before = world.score_first((n - 1) as nat);
        lemma_score_keeps_board(before.play(n - 1), world.arena);
    }
}

} // verus!
