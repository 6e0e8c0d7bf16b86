//! The ball movement stage: every ball goes on along its velocity for the
//! time that has passed.

use vstd::prelude::*;
use crate::grid::{advanced, fits, on_grid};
use crate::pong::{Ball, BallView, Pong, PongView};

verus! {

impl BallView {
    /// The ball after the time `elapsed`: its position has gone on by its
    /// velocity times `elapsed`.
    pub open spec fn moved(self, elapsed: int) -> BallView {
        BallView {
            x: self.x + self.velocity_x * elapsed,
            y: self.y + self.velocity_y * elapsed,
            ..self
        }
    }

    /// The coordinates can hold the place that the ball reaches in the time
    /// `elapsed`.
    pub open spec fn can_move(self, elapsed: int) -> bool {
        on_grid(self.moved(elapsed).x) && on_grid(self.moved(elapsed).y)
    }
}

impl PongView {
    /// The ball movement stage.
    pub open spec fn move_balls(self, elapsed: int) -> PongView {
        PongView {
            balls: Seq::new(self.balls.len(), |i: int| self.balls[i].moved(elapsed)),
            ..self
        }
    }

    /// Every ball of the session can move for the time `elapsed`.
    pub open spec fn balls_can_move(self, elapsed: int) -> bool {
        forall|i: int| 0 <= i < self.balls.len() ==> (#[trigger] self.balls[i]).can_move(elapsed)
    }
}

/// The ball movement stage of a frame.
pub struct MoveBallsSystem;

impl MoveBallsSystem {
    /// Tells whether every ball of the session can move for the time
    /// `elapsed`.
    pub fn can_run(&self, world: &Pong, elapsed: u32) -> (ok: bool)
        ensures
            ok == world@.balls_can_move(elapsed as int),
    {
        let mut i: usize = 0;
        while i < world.balls.len()
            invariant
                i <= world.balls.len(),
                forall|k: int| 0 <= k < i ==> (#[trigger] world@.balls[k]).can_move(elapsed as int),
            decreases world.balls.len() - i,
        {
            if !can_move(&world.balls[i], elapsed) {
                assert(!world@.balls[i as int].can_move(elapsed as int));
                return false;
            }
            i += 1;
        }
        true
    }

    /// Moves every ball of the session for the time `elapsed`.
    pub fn run(&mut self, world: &mut Pong, elapsed: u32)
        requires
            old(world)@.balls_can_move(elapsed as int),
        ensures
            final(world)@ == old(world)@.move_balls(elapsed as int),
            final(world).balls.len() == old(world).balls.len(),
            final(world).paddles.len() == old(world).paddles.len(),
            old(world).wf() ==> final(world).wf(),
    {
        let ghost start = world@;
        let mut i: usize = 0;
        while i < world.balls.len()
            invariant
                i <= world.balls.len(),
                world.balls.len() == start.balls.len(),
                start.balls_can_move(elapsed as int),
                forall|k: int| 0 <= k < i ==> (#[trigger] world@.balls[k]) == start.balls[k].moved(
                    elapsed as int,
                ),
                forall|k: int| i <= k < world.balls.len() ==> (#[trigger] world@.balls[k])
                    == start.balls[k],
                world@.arena == start.arena,
                world@.paddles == start.paddles,
                world@.scores == start.scores,
                world@.text == start.text,
            decreases world.balls.len() - i,
        {
            let ghost before = world@;
            let mut ball = world.balls[i];
            assert(ball@ == before.balls[i as int]);
            ball.x = advanced(ball.x, ball.velocity[0] as i64, elapsed) as i32;
            ball.y = advanced(ball.y, ball.velocity[1] as i64, elapsed) as i32;
            world.balls.set(i, ball);
            assert forall|k: int| 0 <= k < world.balls.len() implies (#[trigger] world@.balls[k])
                == if k == i {
                ball@
            } else {
                before.balls[k]
            } by {}
            i += 1;
        }
        assert(world@.balls =~= start.move_balls(elapsed as int).balls);
    }
}

/// Tells whether the ball can move for the time `elapsed`.
fn can_move(ball: &Ball, elapsed: u32) -> (ok: bool)
    ensures
        ok == ball@.can_move(elapsed as int),
{
    fits(advanced(ball.x, ball.velocity[0] as i64, elapsed)) && fits(
        advanced(ball.y, ball.velocity[1] as i64, elapsed),
    )
}

/// A ball does not move in no time, and two steps in a row take it where
/// one step of their joint length takes it.
pub proof fn lemma_moved_in_steps(ball: BallView, first: int, second: int)
    ensures
        ball.moved(0) == ball,
        ball.moved(first).moved(second) == ball.moved(first + second),
{
    assert(ball.velocity_x * (first + second) == ball.velocity_x * first + ball.velocity_x
        * second) by (nonlinear_arith);
    assert(ball.velocity_y * (first + second) == ball.velocity_y * first + ball.velocity_y
        * second) by (nonlinear_arith);
}

} // verus!
