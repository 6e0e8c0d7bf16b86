//! The stages of a frame, and the frame that runs them in order.

pub mod bounce;
pub mod move_balls;
pub mod paddle;
pub mod winner;

pub use self::bounce::BounceSystem;
pub use self::move_balls::MoveBallsSystem;
pub use self::paddle::PaddleSystem;
pub use self::winner::WinnerSystem;

use vstd::prelude::*;
use crate::pong::{Pong, PongView};
use self::bounce::{lemma_collide_keeps_ball, lemma_collide_stage};
use self::paddle::intent_value;
use self::winner::lemma_score_stage;

verus! {

/// What a frame is given: the intent of each side, the speed of a paddle
/// at full intent, and the time that has passed.
pub struct FrameInput {
    pub left: int,
    pub right: int,
    pub speed: int,
    pub elapsed: int,
}

impl PongView {
    /// One frame: the paddles move, the balls move, the balls bounce where
    /// they now are, and the balls that the bounces left at a side wall give
    /// their points.
    pub open spec fn frame(self, given: FrameInput) -> PongView {
        self.move_paddles(given.left, given.right, given.speed, given.elapsed).move_balls(
            given.elapsed,
        ).collide().score()
    }

    /// A frame can run: every ball is well formed, and the coordinates can
    /// hold the places that the paddles and the balls move to.
    pub open spec fn can_frame(self, given: FrameInput) -> bool {
        &&& self.wf()
        &&& self.paddles_can_move(given.left, given.right, given.speed, given.elapsed)
        &&& self.balls_can_move(given.elapsed)
    }

    /// One frame after the other, for each of `given` in order.
    pub open spec fn frames(self, given: Seq<FrameInput>) -> PongView
        decreases given.len(),
    {
        if given.len() == 0 {
            self
        } else {
            self.frames(given.drop_last()).frame(given.last())
        }
    }
}

/// What a frame is given, as the stages take it.
pub open spec fn frame_input(left: Option<i32>, right: Option<i32>, speed: i32, elapsed: u32) -> FrameInput {
    FrameInput {
        left: intent_value(left),
        right: intent_value(right),
        speed: speed as int,
        elapsed: elapsed as int,
    }
}

impl Pong {
    /// Tells whether a frame can run.
    pub fn can_update(&self, left: Option<i32>, right: Option<i32>, speed: i32, elapsed: u32) -> (ok:
        bool)
        ensures
            ok == self@.can_frame(frame_input(left, right, speed, elapsed)),
    {
        self.is_wf() && PaddleSystem.can_run(self, left, right, speed, elapsed)
            && MoveBallsSystem.can_run(self, elapsed)
    }

    /// Runs one frame: the four stages, in their order.
    pub fn update(&mut self, left: Option<i32>, right: Option<i32>, speed: i32, elapsed: u32)
        requires
            old(self)@.can_frame(frame_input(left, right, speed, elapsed)),
        ensures
            final(self)@ == old(self)@.frame(frame_input(left, right, speed, elapsed)),
            final(self).balls.len() == old(self).balls.len(),
            final(self).paddles.len() == old(self).paddles.len(),
            final(self).wf(),
            old(self).scores.in_range() ==> final(self).scores.in_range(),
            old(self).scores.wf() ==> final(self).scores.wf(),
            old(self)@.text.shows(old(self)@.scores) ==> final(self)@.text.shows(
                final(self)@.scores,
            ),
    {
        proof {
            lemma_frame(self@, frame_input(left, right, speed, elapsed));
        }
        PaddleSystem.run(self, left, right, speed, elapsed);
        MoveBallsSystem.run(self, elapsed);
        BounceSystem.run(self);
        WinnerSystem.run(self);
    }
}

/// A frame keeps the arena and the number of balls, and moves the paddles
/// only in its first stage. It keeps well-formed balls well formed, and it
/// keeps what holds of the board and the display.
pub proof fn lemma_frame(world: PongView, given: FrameInput)
    ensures
        world.frame(given).arena == world.arena,
        world.frame(given).balls.len() == world.balls.len(),
        world.frame(given).paddles == world.move_paddles(
            given.left,
            given.right,
            given.speed,
            given.elapsed,
        ).paddles,
        world.wf() ==> world.frame(given).wf(),
        world.scores.in_range() ==> world.frame(given).scores.in_range(),
        world.scores.wf() ==> world.frame(given).scores.wf(),
        world.text.shows(world.scores) ==> world.frame(given).text.shows(
            world.frame(given).scores,
        ),
{
    let moved = world.move_paddles(given.left, given.right, given.speed, given.elapsed).move_balls(
        given.elapsed,
    );
    lemma_collide_stage(moved);
    lemma_score_stage(moved.collide());
    if world.wf() {
        assert forall|i: int| 0 <= i < world.balls.len() implies (#[trigger] world.frame(
            given,
        ).balls[i]).wf() by {
            assert(world.balls[i].wf());
            assert(moved.balls[i].wf());
            lemma_collide_keeps_ball(moved.play(i), moved.paddles, moved.arena);
        }
    }
}

/// Whatever number of frames is played and whatever they are given, the
/// counters stay in range, no stroke count passes its record, and the
/// slots go on showing the board.
pub proof fn lemma_frames(world: PongView, given: Seq<FrameInput>)
    ensures
        world.frames(given).arena == world.arena,
        world.frames(given).balls.len() == world.balls.len(),
        world.frames(given).paddles.len() == world.paddles.len(),
        world.wf() ==> world.frames(given).wf(),
        world.scores.in_range() ==> world.frames(given).scores.in_range(),
        world.scores.wf() ==> world.frames(given).scores.wf(),
        world.text.shows(world.scores) ==> world.frames(given).text.shows(
            world.frames(given).scores,
        ),
    decreases given.len(),
{
    if given.len() > 0 {
        lemma_frames(world, given.drop_last());
        lemma_frame(world.frames(given.drop_last()), given.last());
    }
}

} // verus!
