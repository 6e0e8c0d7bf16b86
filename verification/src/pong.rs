//! The data of a session: arena, balls, paddles, score board and display
//! text, each with its mathematical view, and the state a session starts in.
//!
//! Lengths, positions and velocities are integers in a unit that the host
//! chooses; a velocity is a distance per unit of time.

use vstd::prelude::*;
use crate::decimal::{counter_text, decimal};
use crate::grid::on_grid;

verus! {

/// The height of a paddle of the standard size.
pub const PADDLE_HEIGHT: u32 = 16;

/// The width of a paddle of the standard size.
pub const PADDLE_WIDTH: u32 = 4;

/// The horizontal velocity that the ball of a session starts with.
pub const BALL_VELOCITY_X: i32 = 25;

/// The vertical velocity that the ball of a session starts with.
pub const BALL_VELOCITY_Y: i32 = 15;

/// The radius of the ball that a session starts with.
pub const BALL_RADIUS: u32 = 2;

/// The height of the standard arena.
pub const ARENA_HEIGHT: u32 = 100;

/// The width of the standard arena.
pub const ARENA_WIDTH: u32 = 100;

/// The ceiling of every score and stroke counter.
pub const COUNTER_MAX: i32 = 999;

/// The playing field `[0, width] x [0, height]`.
#[derive(Clone, Copy, Debug, PartialEq, Eq, Structural)]
pub struct Arena {
    pub width: u32,
    pub height: u32,
}

/// An arena, in mathematical integers.
pub struct ArenaView {
    pub width: int,
    pub height: int,
}

impl View for Arena {
    type V = ArenaView;

    open spec fn view(&self) -> ArenaView {
        ArenaView { width: self.width as int, height: self.height as int }
    }
}

impl ArenaView {
    /// The x coordinate that a ball is served from.
    pub open spec fn centre_x(self) -> int {
        self.width / 2
    }
}

/// A ball: the position of its centre, its velocity as `[x, y]`, and its
/// radius.
#[derive(Clone, Copy, Debug, PartialEq, Eq)]
pub struct Ball {
    pub x: i32,
    pub y: i32,
    pub velocity: [i32; 2],
    pub radius: u32,
}

/// A ball, in mathematical integers.
pub struct BallView {
    pub x: int,
    pub y: int,
    pub velocity_x: int,
    pub velocity_y: int,
    pub radius: int,
}

impl View for Ball {
    type V = BallView;

    open spec fn view(&self) -> BallView {
        BallView {
            x: self.x as int,
            y: self.y as int,
            velocity_x: self.velocity[0] as int,
            velocity_y: self.velocity[1] as int,
            radius: self.radius as int,
        }
    }
}

impl BallView {
    /// The radius is positive, and a coordinate can hold each velocity
    /// component and its opposite.
    pub open spec fn wf(self) -> bool {
        &&& self.radius > 0
        &&& on_grid(self.velocity_x) && on_grid(-self.velocity_x)
        &&& on_grid(self.velocity_y) && on_grid(-self.velocity_y)
    }
}

impl Ball {
    /// The ball is well formed.
    pub open spec fn wf(&self) -> bool {
        self@.wf()
    }

    /// Tells whether the ball is well formed.
    pub fn is_wf(&self) -> (ok: bool)
        ensures
            ok == self.wf(),
    {
        self.radius > 0 && self.velocity[0] > i32::MIN && self.velocity[1] > i32::MIN
    }
}

/// The views of a sequence of balls, in order.
pub open spec fn ball_views(balls: Seq<Ball>) -> Seq<BallView> {
    Seq::new(balls.len(), |i: int| balls[i]@)
}

/// The side of the arena that a paddle defends.
#[derive(Clone, Copy, Debug, PartialEq, Eq, Structural)]
pub enum Side {
    Left,
    Right,
}

/// A paddle: its side, its size, and the position of its bottom-left corner.
#[derive(Clone, Copy, Debug, PartialEq, Eq, Structural)]
pub struct Paddle {
    pub side: Side,
    pub width: u32,
    pub height: u32,
    pub x: i32,
    pub y: i32,
}

/// A paddle, in mathematical integers.
pub struct PaddleView {
    pub side: Side,
    pub width: int,
    pub height: int,
    pub x: int,
    pub y: int,
}

impl View for Paddle {
    type V = PaddleView;

    open spec fn view(&self) -> PaddleView {
        PaddleView {
            side: self.side,
            width: self.width as int,
            height: self.height as int,
            x: self.x as int,
            y: self.y as int,
        }
    }
}

impl Paddle {
    /// A paddle of the standard size for `side`, with its corner at the
    /// origin.
    pub fn new(side: Side) -> (paddle: Paddle)
        ensures
            paddle@ == (PaddleView {
                side,
                width: PADDLE_WIDTH as int,
                height: PADDLE_HEIGHT as int,
                x: 0,
                y: 0,
            }),
    {
        Paddle { side, width: PADDLE_WIDTH, height: PADDLE_HEIGHT, x: 0, y: 0 }
    }
}

/// The views of a sequence of paddles, in order.
pub open spec fn paddle_views(paddles: Seq<Paddle>) -> Seq<PaddleView> {
    Seq::new(paddles.len(), |i: int| paddles[i]@)
}

/// Scores, strokes of the current serve, and the longest serve of each side.
#[derive(Clone, Copy, Debug, PartialEq, Eq, Structural)]
pub struct ScoreBoard {
    pub score_left: i32,
    pub score_right: i32,
    pub stroke_left: i32,
    pub stroke_right: i32,
    pub stroke_max_left: i32,
    pub stroke_max_right: i32,
    pub serve_duration: u64,
}

/// A score board, in mathematical integers.
pub struct ScoreBoardView {
    pub score_left: int,
    pub score_right: int,
    pub stroke_left: int,
    pub stroke_right: int,
    pub stroke_max_left: int,
    pub stroke_max_right: int,
    pub serve_duration: int,
}

impl View for ScoreBoard {
    type V = ScoreBoardView;

    open spec fn view(&self) -> ScoreBoardView {
        ScoreBoardView {
            score_left: self.score_left as int,
            score_right: self.score_right as int,
            stroke_left: self.stroke_left as int,
            stroke_right: self.stroke_right as int,
            stroke_max_left: self.stroke_max_left as int,
            stroke_max_right: self.stroke_max_right as int,
            serve_duration: self.serve_duration as int,
        }
    }
}

/// A counter after one more event: one more, but never above the ceiling.
pub open spec fn raised(n: int) -> int {
    if n < COUNTER_MAX {
        n + 1
    } else {
        COUNTER_MAX as int
    }
}

/// One more on a counter, up to the ceiling.
pub(crate) fn raise(count: i32) -> (next: i32)
    ensures
        next == raised(count as int),
{
    if count < COUNTER_MAX {
        count + 1
    } else {
        COUNTER_MAX
    }
}

impl ScoreBoardView {
    /// The board before the first serve.
    pub open spec fn zero() -> ScoreBoardView {
        ScoreBoardView {
            score_left: 0,
            score_right: 0,
            stroke_left: 0,
            stroke_right: 0,
            stroke_max_left: 0,
            stroke_max_right: 0,
            serve_duration: 0,
        }
    }

    /// Every counter lies in `[0, COUNTER_MAX]`.
    pub open spec fn in_range(self) -> bool {
        &&& 0 <= self.score_left <= COUNTER_MAX
        &&& 0 <= self.score_right <= COUNTER_MAX
        &&& 0 <= self.stroke_left <= COUNTER_MAX
        &&& 0 <= self.stroke_right <= COUNTER_MAX
        &&& 0 <= self.stroke_max_left <= COUNTER_MAX
        &&& 0 <= self.stroke_max_right <= COUNTER_MAX
    }

    /// Every counter lies in `[0, COUNTER_MAX]`, and no stroke count is
    /// above the record of its side.
    pub open spec fn wf(self) -> bool {
        &&& self.in_range()
        &&& self.stroke_left <= self.stroke_max_left
        &&& self.stroke_right <= self.stroke_max_right
    }

    /// The strokes of `side` in the current serve.
    pub open spec fn stroke(self, side: Side) -> int {
        match side {
            Side::Left => self.stroke_left,
            Side::Right => self.stroke_right,
        }
    }

    /// The longest serve of `side`.
    pub open spec fn stroke_max(self, side: Side) -> int {
        match side {
            Side::Left => self.stroke_max_left,
            Side::Right => self.stroke_max_right,
        }
    }

    /// Tells whether one more stroke of `side` reaches its record.
    pub open spec fn sets_record(self, side: Side) -> bool {
        raised(self.stroke(side)) >= self.stroke_max(side)
    }

    /// The board after a stroke of `side`: its stroke count is raised, and
    /// its record follows where the new count reaches it.
    pub open spec fn with_stroke(self, side: Side) -> ScoreBoardView {
        let count = raised(self.stroke(side));
        let record = if self.sets_record(side) {
            count
        } else {
            self.stroke_max(side)
        };
        match side {
            Side::Left => ScoreBoardView { stroke_left: count, stroke_max_left: record, ..self },
            Side::Right => ScoreBoardView {
                stroke_right: count,
                stroke_max_right: record,
                ..self
            },
        }
    }

    /// The board after a point for `side`: its score is raised, and a new
    /// serve starts with both stroke counts at zero.
    pub open spec fn with_point(self, side: Side) -> ScoreBoardView {
        match side {
            Side::Left => ScoreBoardView {
                score_left: raised(self.score_left),
                stroke_left: 0,
                stroke_right: 0,
                ..self
            },
            Side::Right => ScoreBoardView {
                score_right: raised(self.score_right),
                stroke_left: 0,
                stroke_right: 0,
                ..self
            },
        }
    }
}

impl ScoreBoard {
    /// Every counter lies in `[0, COUNTER_MAX]`.
    pub open spec fn in_range(&self) -> bool {
        self@.in_range()
    }

    /// The board is well formed.
    pub open spec fn wf(&self) -> bool {
        self@.wf()
    }
}

impl Default for ScoreBoard {
    /// The board before the first serve.
    fn default() -> (board: ScoreBoard)
        ensures
            board@ == ScoreBoardView::zero(),
            board.wf(),
    {
        ScoreBoard {
            score_left: 0,
            score_right: 0,
            stroke_left: 0,
            stroke_right: 0,
            stroke_max_left: 0,
            stroke_max_right: 0,
            serve_duration: 0,
        }
    }
}

/// The text that each of the seven display slots shows.
#[derive(Clone, Debug, PartialEq, Eq)]
pub struct ScoreText {
    pub p1_score: String,
    pub p2_score: String,
    pub p1_stroke: String,
    pub p2_stroke: String,
    pub p1_max_stroke: String,
    pub p2_max_stroke: String,
    pub serve_time: String,
}

/// The text of the seven display slots, as sequences of characters.
pub struct ScoreTextView {
    pub p1_score: Seq<char>,
    pub p2_score: Seq<char>,
    pub p1_stroke: Seq<char>,
    pub p2_stroke: Seq<char>,
    pub p1_max_stroke: Seq<char>,
    pub p2_max_stroke: Seq<char>,
    pub serve_time: Seq<char>,
}

impl View for ScoreText {
    type V = ScoreTextView;

    open spec fn view(&self) -> ScoreTextView {
        ScoreTextView {
            p1_score: self.p1_score@,
            p2_score: self.p2_score@,
            p1_stroke: self.p1_stroke@,
            p2_stroke: self.p2_stroke@,
            p1_max_stroke: self.p1_max_stroke@,
            p2_max_stroke: self.p2_max_stroke@,
            serve_time: self.serve_time@,
        }
    }
}

impl ScoreTextView {
    /// Every slot shows the decimal text of the number it stands for.
    pub open spec fn shows(self, board: ScoreBoardView) -> bool {
        &&& self.p1_score == decimal(board.score_left)
        &&& self.p2_score == decimal(board.score_right)
        &&& self.p1_stroke == decimal(board.stroke_left)
        &&& self.p2_stroke == decimal(board.stroke_right)
        &&& self.p1_max_stroke == decimal(board.stroke_max_left)
        &&& self.p2_max_stroke == decimal(board.stroke_max_right)
        &&& self.serve_time == decimal(board.serve_duration)
    }

    /// The display after a stroke of `side` that leaves the board `board`:
    /// the stroke slot of the side is written, and its record slot too where
    /// `record` says that the record moved.
    pub open spec fn with_stroke(self, side: Side, board: ScoreBoardView, record: bool) -> ScoreTextView {
        match side {
            Side::Left => ScoreTextView {
                p1_stroke: decimal(board.stroke_left),
                p1_max_stroke: if record {
                    decimal(board.stroke_max_left)
                } else {
                    self.p1_max_stroke
                },
                ..self
            },
            Side::Right => ScoreTextView {
                p2_stroke: decimal(board.stroke_right),
                p2_max_stroke: if record {
                    decimal(board.stroke_max_right)
                } else {
                    self.p2_max_stroke
                },
                ..self
            },
        }
    }

    /// The display after a point for `side` that leaves the board `board`:
    /// the score slot of the side, the score slot of the right side, and
    /// both stroke slots are written.
    pub open spec fn with_point(self, side: Side, board: ScoreBoardView) -> ScoreTextView {
        ScoreTextView {
            p1_score: match side {
                Side::Left => decimal(board.score_left),
                Side::Right => self.p1_score,
            },
            p2_score: decimal(board.score_right),
            p1_stroke: decimal(board.stroke_left),
            p2_stroke: decimal(board.stroke_right),
            ..self
        }
    }
}

/// A whole session.
#[derive(Clone, Debug, PartialEq, Eq)]
pub struct Pong {
    pub arena: Arena,
    pub balls: Vec<Ball>,
    pub paddles: Vec<Paddle>,
    pub scores: ScoreBoard,
    pub text: ScoreText,
}

/// A session, as its arena, the sequences of its balls and of its paddles,
/// its board and its display.
pub struct PongView {
    pub arena: ArenaView,
    pub balls: Seq<BallView>,
    pub paddles: Seq<PaddleView>,
    pub scores: ScoreBoardView,
    pub text: ScoreTextView,
}

impl View for Pong {
    type V = PongView;

    open spec fn view(&self) -> PongView {
        PongView {
            arena: self.arena@,
            balls: ball_views(self.balls@),
            paddles: paddle_views(self.paddles@),
            scores: self.scores@,
            text: self.text@,
        }
    }
}

/// One ball in play, together with the board and the display that its
/// bounces and points are written to.
pub struct Play {
    pub ball: BallView,
    pub scores: ScoreBoardView,
    pub text: ScoreTextView,
}

impl PongView {
    /// The session seen from its ball `i`.
    pub open spec fn play(self, i: int) -> Play {
        Play { ball: self.balls[i], scores: self.scores, text: self.text }
    }

    /// The session with ball `i`, the board and the display taken from
    /// `play`.
    pub open spec fn with_play(self, i: int, play: Play) -> PongView {
        PongView {
            balls: self.balls.update(i, play.ball),
            scores: play.scores,
            text: play.text,
            ..self
        }
    }

    /// Every ball of the session is well formed.
    pub open spec fn wf(self) -> bool {
        forall|i: int| 0 <= i < self.balls.len() ==> (#[trigger] self.balls[i]).wf()
    }

    /// The session that play starts from: the standard arena, one ball at
    /// its centre, a paddle at mid-height against each side wall with the
    /// left one first, a board of zeros, and every slot showing `0`.
    pub open spec fn start() -> PongView {
        PongView {
            arena: ArenaView { width: ARENA_WIDTH as int, height: ARENA_HEIGHT as int },
            balls: seq![
                BallView {
                    x: ARENA_WIDTH as int / 2,
                    y: ARENA_HEIGHT as int / 2,
                    velocity_x: BALL_VELOCITY_X as int,
                    velocity_y: BALL_VELOCITY_Y as int,
                    radius: BALL_RADIUS as int,
                },
            ],
            paddles: seq![
                PaddleView {
                    side: Side::Left,
                    width: PADDLE_WIDTH as int,
                    height: PADDLE_HEIGHT as int,
                    x: 0,
                    y: ARENA_HEIGHT as int / 2 - PADDLE_HEIGHT as int / 2,
                },
                PaddleView {
                    side: Side::Right,
                    width: PADDLE_WIDTH as int,
                    height: PADDLE_HEIGHT as int,
                    x: ARENA_WIDTH as int - PADDLE_WIDTH as int,
                    y: ARENA_HEIGHT as int / 2 - PADDLE_HEIGHT as int / 2,
                },
            ],
            scores: ScoreBoardView::zero(),
            text: ScoreTextView {
                p1_score: decimal(0),
                p2_score: decimal(0),
                p1_stroke: decimal(0),
                p2_stroke: decimal(0),
                p1_max_stroke: decimal(0),
                p2_max_stroke: decimal(0),
                serve_time: decimal(0),
            },
        }
    }
}

/// The session that play starts from has a well-formed ball and a
/// well-formed board, and its display shows its board.
pub proof fn lemma_start_is_sound()
    ensures
        PongView::start().wf(),
        PongView::start().scores.wf(),
        PongView::start().text.shows(PongView::start().scores),
{
}

/// The display before the first serve.
fn initialise_scoreboard() -> (text: ScoreText)
    ensures
        text@ == PongView::start().text,
{
    ScoreText {
        p1_score: counter_text(0),
        p2_score: counter_text(0),
        p1_stroke: counter_text(0),
        p2_stroke: counter_text(0),
        p1_max_stroke: counter_text(0),
        p2_max_stroke: counter_text(0),
        serve_time: counter_text(0),
    }
}

/// The ball that a session starts with.
fn initialise_ball() -> (ball: Ball)
    ensures
        ball@ == PongView::start().balls[0],
        ball.wf(),
{
    Ball {
        x: (ARENA_WIDTH / 2) as i32,
        y: (ARENA_HEIGHT / 2) as i32,
        velocity: [BALL_VELOCITY_X, BALL_VELOCITY_Y],
        radius: BALL_RADIUS,
    }
}

/// The paddles that a session starts with.
fn initialise_paddles() -> (paddles: Vec<Paddle>)
    ensures
        paddle_views(paddles@) == PongView::start().paddles,
        paddles.len() == 2,
{
    let y = (ARENA_HEIGHT / 2 - PADDLE_HEIGHT / 2) as i32;
    let mut left = Paddle::new(Side::Left);
    left.y = y;
    let mut right = Paddle::new(Side::Right);
    right.x = (ARENA_WIDTH - PADDLE_WIDTH) as i32;
    right.y = y;
    let mut paddles = Vec::new();
    paddles.push(left);
    paddles.push(right);
    assert(paddle_views(paddles@) =~= PongView::start().paddles);
    paddles
}

impl Pong {
    /// Every ball of the session is well formed.
    pub open spec fn wf(&self) -> bool {
        self@.wf()
    }

    /// Tells whether the session is well formed.
    pub fn is_wf(&self) -> (ok: bool)
        ensures
            ok == self.wf(),
    {
        let mut i: usize = 0;
        while i < self.balls.len()
            invariant
                i <= self.balls.len(),
                forall|k: int| 0 <= k < i ==> (#[trigger] self@.balls[k]).wf(),
            decreases self.balls.len() - i,
        {
            if !self.balls[i].is_wf() {
                assert(!self@.balls[i as int].wf());
                return false;
            }
            i += 1;
        }
        true
    }

    /// An empty session: the standard arena with no ball and no paddle, a
    /// board of zeros, and every slot showing `0`.
    pub fn new() -> (world: Pong)
        ensures
            world@ == (PongView { balls: Seq::empty(), paddles: Seq::empty(), ..PongView::start() }),
            world.balls.len() == 0,
            world.paddles.len() == 0,
            world.wf(),
            world.scores.wf(),
            world@.text.shows(world@.scores),
    {
        let world = Pong {
            arena: Arena { width: ARENA_WIDTH, height: ARENA_HEIGHT },
            balls: Vec::new(),
            paddles: Vec::new(),
            scores: ScoreBoard::default(),
            text: initialise_scoreboard(),
        };
        assert(ball_views(world.balls@) =~= Seq::empty());
        assert(paddle_views(world.paddles@) =~= Seq::empty());
        world
    }

    /// Puts the session in the state that play starts from, whatever it
    /// held.
    pub fn on_start(&mut self)
        ensures
            final(self)@ == PongView::start(),
            final(self).balls.len() == 1,
            final(self).paddles.len() == 2,
            final(self).wf(),
            final(self).scores.wf(),
            final(self)@.text.shows(final(self)@.scores),
    {
        self.arena = Arena { width: ARENA_WIDTH, height: ARENA_HEIGHT };
        let mut balls = Vec::new();
        balls.push(initialise_ball());
        self.balls = balls;
        self.paddles = initialise_paddles();
        self.scores = ScoreBoard::default();
        self.text = initialise_scoreboard();
        assert(ball_views(self.balls@) =~= PongView::start().balls);
    }
}

} // verus!
