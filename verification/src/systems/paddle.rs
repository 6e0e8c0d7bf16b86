//! The paddle movement stage: every paddle goes up or down as the player of
//! its side intends.

use vstd::prelude::*;
use crate::grid::{advanced, fits, on_grid, rate_of};
use crate::pong::{Paddle, PaddleView, Pong, PongView, Side};

verus! {

/// The value of an intent. A positive one is upward, and an absent one is
/// no movement.
pub open spec fn intent_value(intent: Option<i32>) -> int {
    match intent {
        Some(value) => value as int,
        None => 0,
    }
}

impl PaddleView {
    /// The paddle after the time `elapsed`: its height has gone on by the
    /// intent of its side times `speed` times `elapsed`.
    pub open spec fn moved(self, left: int, right: int, speed: int, elapsed: int) -> PaddleView {
        let intent = match self.side {
            Side::Left => left,
            Side::Right => right,
        };
        PaddleView { y: self.y + intent * speed * elapsed, ..self }
    }

    /// A coordinate can hold the height that the paddle reaches.
    pub open spec fn can_move(self, left: int, right: int, speed: int, elapsed: int) -> bool {
        on_grid(self.moved(left, right, speed, elapsed).y)
    }
}

impl PongView {
    /// The paddle movement stage.
    pub open spec fn move_paddles(self, left: int, right: int, speed: int, elapsed: int) -> PongView {
        PongView {
            paddles: Seq::new(
                self.paddles.len(),
                |i: int| self.paddles[i].moved(left, right, speed, elapsed),
            ),
            ..self
        }
    }

    /// Every paddle of the session can move.
    pub open spec fn paddles_can_move(self, left: int, right: int, speed: int, elapsed: int) -> bool {
        forall|i: int|
            0 <= i < self.paddles.len() ==> (#[trigger] self.paddles[i]).can_move(
                left,
                right,
                speed,
                elapsed,
            )
    }
}

/// The paddle movement stage of a frame.
pub struct PaddleSystem;

impl PaddleSystem {
    /// Tells whether every paddle of the session can move.
    pub fn can_run(
        &self,
        world: &Pong,
        left: Option<i32>,
        right: Option<i32>,
        speed: i32,
        elapsed: u32,
    ) -> (ok: bool)
        ensures
            ok == world@.paddles_can_move(
                intent_value(left),
                intent_value(right),
                speed as int,
                elapsed as int,
            ),
    {
        let mut i: usize = 0;
        while i < world.paddles.len()
            invariant
                i <= world.paddles.len(),
                forall|k: int|
                    0 <= k < i ==> (#[trigger] world@.paddles[k]).can_move(
                        intent_value(left),
                        intent_value(right),
                        speed as int,
                        elapsed as int,
                    ),
            decreases world.paddles.len() - i,
        {
            if !fits(reached(&world.paddles[i], left, right, speed, elapsed)) {
                assert(!world@.paddles[i as int].can_move(
                    intent_value(left),
                    intent_value(right),
                    speed as int,
                    elapsed as int,
                ));
                return false;
            }
            i += 1;
        }
        true
    }

    /// Moves every paddle of the session as the player of its side intends.
    pub fn run(
        &mut self,
        world: &mut Pong,
        left: Option<i32>,
        right: Option<i32>,
        speed: i32,
        elapsed: u32,
    )
        requires
            old(world)@.paddles_can_move(
                intent_value(left),
                intent_value(right),
                speed as int,
                elapsed as int,
            ),
        ensures
            final(world)@ == old(world)@.move_paddles(
                intent_value(left),
                intent_value(right),
                speed as int,
                elapsed as int,
            ),
            final(world).balls.len() == old(world).balls.len(),
            final(world).paddles.len() == old(world).paddles.len(),
            old(world).wf() ==> final(world).wf(),
    {
        let ghost start = world@;
        let mut i: usize = 0;
        while i < world.paddles.len()
            invariant
                i <= world.paddles.len(),
                world.paddles.len() == start.paddles.len(),
                start.paddles_can_move(
                    intent_value(left),
                    intent_value(right),
                    speed as int,
                    elapsed as int,
                ),
                forall|k: int|
                    0 <= k < i ==> (#[trigger] world@.paddles[k]) == start.paddles[k].moved(
                        intent_value(left),
                        intent_value(right),
                        speed as int,
                        elapsed as int,
                    ),
                forall|k: int|
                    i <= k < world.paddles.len() ==> (#[trigger] world@.paddles[k])
                        == start.paddles[k],
                world@.arena == start.arena,
                world@.balls == start.balls,
                world@.scores == start.scores,
                world@.text == start.text,
            decreases world.paddles.len() - i,
        {
            let ghost before = world@;
            let mut paddle = world.paddles[i];
            assert(paddle@ == before.paddles[i as int]);
            paddle.y = reached(&paddle, left, right, speed, elapsed) as i32;
            world.paddles.set(i, paddle);
            assert forall|k: int| 0 <= k < world.paddles.len() implies (
            #[trigger] world@.paddles[k]) == if k == i {
                paddle@
            } else {
                before.paddles[k]
            } by {}
            i += 1;
        }
        assert(world@.paddles =~= start.move_paddles(
            intent_value(left),
            intent_value(right),
            speed as int,
            elapsed as int,
        ).paddles);
    }
}

/// The height that the paddle reaches.
fn reached(paddle: &Paddle, left: Option<i32>, right: Option<i32>, speed: i32, elapsed: u32) -> (to:
    i128)
    ensures
        to == paddle@.moved(
            intent_value(left),
            intent_value(right),
            speed as int,
            elapsed as int,
        ).y,
{
    let intent = match paddle.side {
        Side::Left => left,
        Side::Right => right,
    };
    let value = match intent {
        Some(value) => value,
        None => 0,
    };
    advanced(paddle.y, rate_of(value, speed), elapsed)
}

/// A paddle stays where it is when its side intends nothing, and the
/// intent of the other side does not move it.
pub proof fn lemma_idle_paddle_rests(paddle: PaddleView, other: int, speed: int, elapsed: int)
    ensures
        paddle.side == Side::Left ==> paddle.moved(0, other, speed, elapsed) == paddle,
        paddle.side == Side::Right ==> paddle.moved(other, 0, speed, elapsed) == paddle,
{
    assert(0 * speed * elapsed == 0) by (nonlinear_arith);
}

} // verus!
