//! The game's data: arena constants, entity records, the whole-game record,
//! their mathematical models, and the invariant every reachable game
//! satisfies.
//!
//! Units: positions and sizes are nano-pixels (`PX` nano-pixels to the
//! pixel), velocities are milli-pixels per second, frame deltas are
//! microseconds. A velocity times a delta is then exactly a nano-pixel
//! displacement, so ball integration needs no rounding.

use vstd::prelude::*;
use crate::geometry::abs_i;

verus! {

/// One pixel, in the nano-pixel position unit.
pub const PX: i64 = 1_000_000_000;

/// Half the arena's width: the arena is 800 by 600 pixels, centred at the
/// origin, y up.
pub const ARENA_HALF_W: i64 = 400 * PX;

/// Half the arena's height.
pub const ARENA_HALF_H: i64 = 300 * PX;

/// Paddle size: 120 by 20 pixels.
pub const PADDLE_WIDTH: i64 = 120 * PX;

/// Paddle height.
pub const PADDLE_HEIGHT: i64 = 20 * PX;

/// The paddle's fixed vertical centre, 250 pixels below the origin.
pub const PADDLE_Y: i64 = -250 * PX;

/// Leftmost paddle centre: `-ARENA_HALF_W + PADDLE_WIDTH / 2`.
pub const PADDLE_MIN_X: i64 = -340 * PX;

/// Rightmost paddle centre: `ARENA_HALF_W - PADDLE_WIDTH / 2`.
pub const PADDLE_MAX_X: i64 = 340 * PX;

/// The ball is a 15-pixel square.
pub const BALL_SIZE: i64 = 15 * PX;

/// Half the ball's side: `BALL_SIZE / 2`.
pub const BALL_HALF: i64 = 7_500_000_000;

/// Brick size: 60 by 30 pixels.
pub const BRICK_WIDTH: i64 = 60 * PX;

/// Brick height.
pub const BRICK_HEIGHT: i64 = 30 * PX;

/// Gap between neighbouring bricks: 5 pixels.
pub const BRICK_SPACING: i64 = 5 * PX;

/// Horizontal distance between brick centres: `BRICK_WIDTH + BRICK_SPACING`.
pub const BRICK_STRIDE_X: i64 = 65 * PX;

/// Vertical distance between brick rows: `BRICK_HEIGHT + BRICK_SPACING`.
pub const BRICK_STRIDE_Y: i64 = 35 * PX;

/// Centre of the leftmost brick column: `-ARENA_HALF_W + BRICK_WIDTH / 2`.
pub const BRICK_LEFT_X: i64 = -370 * PX;

/// Centre of the topmost brick row: `ARENA_HALF_H - BRICK_HEIGHT`.
pub const BRICK_TOP_Y: i64 = 270 * PX;

/// The grid always has two rows.
pub const BRICK_ROWS: u32 = 2;

/// Bricks per row when the column count is derived from the arena width:
/// `floor((800 + 5) / (60 + 5))`. The count is a parameter of the game so a
/// fixed smaller layout can be chosen instead.
pub const DEFAULT_COLUMNS: u32 = 12;

/// Largest admitted column count; keeps grid coordinates comfortably inside
/// 64 bits.
pub const MAX_COLUMNS: u32 = 100_000;

/// Paddle speed: 500 pixels per second, in milli-pixels per second.
pub const PADDLE_SPEED: i64 = 500_000;

/// Serve speed: 300 pixels per second, in milli-pixels per second.
pub const BALL_SPEED: i64 = 300_000;

/// The ball is served from `(0, -200)` pixels.
pub const BALL_START_X: i64 = 0;

/// Vertical serve position.
pub const BALL_START_Y: i64 = -200 * PX;

/// Serve velocity: direction `(0.3, 0.5)` normalised, times `BALL_SPEED`,
/// rounded to the nearest milli-pixel per second.
pub const BALL_START_VX: i64 = 154_349;

/// Vertical serve velocity, fixed the same way.
pub const BALL_START_VY: i64 = 257_248;

/// Largest admitted frame delta: two seconds, in microseconds.
pub const DT_MAX: i64 = 2_000_000;

/// Velocity component bound kept by the game invariant; far above any speed
/// the game reaches, and small enough that one step never overflows.
pub const VEL_MAX: i64 = 1_000_000_000;

/// Position bound under which one more integration step stays inside 64
/// bits; the frame step demands it of the ball.
pub const POS_MAX: i64 = 4_000_000_000_000_000_000;

/// Whether the round is still being played or how it ended.
#[derive(PartialEq, Eq, Structural, Clone, Copy, Debug)]
pub enum GameState {
    Running,
    Won,
    Lost,
}

/// The ball: centre position in nano-pixels, velocity in milli-pixels per
/// second. Its side is the fixed `BALL_SIZE`.
#[derive(PartialEq, Eq, Structural, Clone, Copy, Debug)]
pub struct Ball {
    pub x: i64,
    pub y: i64,
    pub vx: i64,
    pub vy: i64,
}

/// The paddle: only its horizontal centre moves; its vertical centre is the
/// fixed `PADDLE_Y` and its size the fixed `PADDLE_WIDTH` by
/// `PADDLE_HEIGHT`.
#[derive(PartialEq, Eq, Structural, Clone, Copy, Debug)]
pub struct Paddle {
    pub x: i64,
}

/// One brick: fixed centre, remaining health, and whether it is a special
/// brick (spawned with health 2 and worth 2 points instead of 1).
#[derive(PartialEq, Eq, Structural, Clone, Copy, Debug)]
pub struct Brick {
    pub x: i64,
    pub y: i64,
    pub health: u32,
    pub is_special: bool,
}

impl Brick {
    /// Damaged but alive, for the renderer's visual hint (a renderer may
    /// fade such a brick): only a special brick can survive a hit, so
    /// damage shows as a special brick below its spawn health of 2.
    pub fn is_damaged(&self) -> (r: bool)
        ensures
            r == (self.is_special && self.health < 2),
    {
        self.is_special && self.health < 2
    }
}

/// Mathematical model of a ball.
pub ghost struct BallM {
    pub x: int,
    pub y: int,
    pub vx: int,
    pub vy: int,
}

/// Mathematical model of a brick.
pub ghost struct BrickM {
    pub x: int,
    pub y: int,
    pub health: int,
    pub is_special: bool,
}

/// Mathematical model of a whole game.
#[verifier::ext_equal]
pub ghost struct GameM {
    pub state: GameState,
    pub paddle_x: int,
    pub ball: BallM,
    pub bricks: Seq<BrickM>,
    pub score: int,
    pub last_score: Option<int>,
    pub panel_shown: bool,
    pub columns: int,
}

impl View for Ball {
    type V = BallM;

    open spec fn view(&self) -> BallM {
        BallM { x: self.x as int, y: self.y as int, vx: self.vx as int, vy: self.vy as int }
    }
}

impl View for Brick {
    type V = BrickM;

    open spec fn view(&self) -> BrickM {
        BrickM {
            x: self.x as int,
            y: self.y as int,
            health: self.health as int,
            is_special: self.is_special,
        }
    }
}

/// The whole game: every value the simulation owns. The paddle, ball and
/// bricks exist only while a round does; a restart rebuilds them in place.
pub struct Game {
    pub state: GameState,
    pub paddle: Paddle,
    pub ball: Ball,
    pub bricks: Vec<Brick>,
    pub score: u32,
    pub last_score: Option<u32>,
    pub panel_shown: bool,
    pub columns: u32,
}

/// Model of an optional score.
pub open spec fn opt_int(o: Option<u32>) -> Option<int> {
    match o {
        Option::Some(v) => Option::Some(v as int),
        Option::None => Option::None,
    }
}

impl View for Game {
    type V = GameM;

    open spec fn view(&self) -> GameM {
        GameM {
            state: self.state,
            paddle_x: self.paddle.x as int,
            ball: self.ball@,
            bricks: self.bricks@.map_values(|b: Brick| b@),
            score: self.score as int,
            last_score: opt_int(self.last_score),
            panel_shown: self.panel_shown,
            columns: self.columns as int,
        }
    }
}

impl GameM {
    /// The invariant of every reachable game: the paddle inside its clamp
    /// range, velocities bounded, a still ball once the round has ended,
    /// every live brick with health left, a score that cannot overflow even
    /// if every remaining brick pays double, and a sane column count.
    pub open spec fn inv(self) -> bool {
        &&& PADDLE_MIN_X <= self.paddle_x <= PADDLE_MAX_X
        &&& abs_i(self.ball.vx) <= VEL_MAX
        &&& abs_i(self.ball.vy) <= VEL_MAX
        &&& self.state != GameState::Running ==> self.ball.vx == 0 && self.ball.vy == 0
        &&& forall|i: int| 0 <= i < self.bricks.len() ==> (#[trigger] self.bricks[i]).health >= 1
        &&& 0 <= self.score
        &&& self.score + 2 * self.bricks.len() <= u32::MAX
        &&& self.last_score matches Option::Some(v) ==> 0 <= v <= u32::MAX
        &&& 1 <= self.columns <= MAX_COLUMNS
    }

    /// The ball is close enough to the arena that one more frame of motion
    /// stays inside 64-bit coordinates.
    pub open spec fn ball_in_range(self) -> bool {
        &&& abs_i(self.ball.x) <= POS_MAX
        &&& abs_i(self.ball.y) <= POS_MAX
    }
}

/// The brick spawned at a grid cell: a brick is special exactly when
/// `row + col` is divisible by 4; special bricks start with health 2, the
/// rest with 1.
pub open spec fn grid_brick(row: int, col: int) -> BrickM {
    BrickM {
        x: BRICK_LEFT_X + col * BRICK_STRIDE_X,
        y: BRICK_TOP_Y - row * BRICK_STRIDE_Y,
        health: if (row + col) % 4 == 0 {
            2
        } else {
            1
        },
        is_special: (row + col) % 4 == 0,
    }
}

/// The full grid: `BRICK_ROWS` rows of `columns` bricks, row by row from
/// the top, left to right inside a row.
pub open spec fn spec_grid(columns: int) -> Seq<BrickM> {
    Seq::new((BRICK_ROWS * columns) as nat, |i: int| grid_brick(i / columns, i % columns))
}

/// A freshly set-up round: paddle centred, ball served from its start
/// position and velocity, full grid, zero score, running. `last` is
/// whatever the game remembers of the round before.
pub open spec fn spec_initial(columns: int, last: Option<int>) -> GameM {
    GameM {
        state: GameState::Running,
        paddle_x: 0,
        ball: BallM {
            x: BALL_START_X as int,
            y: BALL_START_Y as int,
            vx: BALL_START_VX as int,
            vy: BALL_START_VY as int,
        },
        bricks: spec_grid(columns),
        score: 0,
        last_score: last,
        panel_shown: false,
        columns: columns,
    }
}

/// A fresh round satisfies the invariant.
pub proof fn lemma_initial_inv(columns: int, last: Option<int>)
    requires
        1 <= columns <= MAX_COLUMNS,
        last matches Option::Some(v) ==> 0 <= v <= u32::MAX,
    ensures
        spec_initial(columns, last).inv(),
{
    let g = spec_initial(columns, last);
    assert forall|i: int| 0 <= i < g.bricks.len() implies (#[trigger] g.bricks[i]).health
        >= 1 by {
        assert(g.bricks[i] == grid_brick(i / columns, i % columns));
    }
    assert(g.bricks.len() == 2 * columns);
}

} // verus!
