//! The simulation itself: round setup, paddle control, ball integration,
//! collision resolution, end-of-round reporting and the restart machine,
//! composed into one frame step.

use vstd::prelude::*;
use vstd::arithmetic::div_mod::lemma_fundamental_div_mod_converse;
use crate::geometry::{aabb_overlap, abs_i, overlaps};
use crate::messages::{compare_scores, spec_compare, Panel};
use crate::state::{
    Ball, BallM, Brick, BrickM, Game, GameM, GameState, Paddle, grid_brick, lemma_initial_inv,
    spec_grid, spec_initial, ARENA_HALF_H, ARENA_HALF_W, BALL_HALF, BALL_SIZE, BALL_START_VX,
    BALL_START_VY, BALL_START_X, BALL_START_Y, BRICK_HEIGHT, BRICK_LEFT_X, BRICK_ROWS,
    BRICK_STRIDE_X, BRICK_STRIDE_Y, BRICK_TOP_Y, BRICK_WIDTH, DT_MAX, MAX_COLUMNS, PADDLE_HEIGHT,
    PADDLE_MAX_X, PADDLE_MIN_X, PADDLE_SPEED, PADDLE_WIDTH, PADDLE_Y, POS_MAX, VEL_MAX,
};

verus! {

/// Movement intent read off the key snapshot: -1 for left, +1 for right,
/// 0 when neither or both are held (both held cancel out on purpose).
pub open spec fn spec_intent(left: bool, right: bool) -> int {
    (if right {
        1int
    } else {
        0int
    }) - (if left {
        1int
    } else {
        0int
    })
}

/// Clamp an integer to a closed interval.
pub open spec fn clamp_i(v: int, lo: int, hi: int) -> int {
    if v < lo {
        lo
    } else if v > hi {
        hi
    } else {
        v
    }
}

/// Where the paddle ends up after one frame of input: moved by
/// `intent * PADDLE_SPEED * dt` and clamped to the arena.
pub open spec fn spec_paddle_step(x: int, left: bool, right: bool, dt: int) -> int {
    clamp_i(x + spec_intent(left, right) * PADDLE_SPEED * dt, PADDLE_MIN_X as int,
        PADDLE_MAX_X as int)
}

/// Plain integration: the ball moves by its velocity times the frame delta,
/// with no collision awareness.
pub open spec fn spec_ball_move(b: BallM, dt: int) -> BallM {
    BallM { x: b.x + b.vx * dt, y: b.y + b.vy * dt, ..b }
}

/// The ball's left or right edge has passed the arena's side boundary.
pub open spec fn hits_side_wall(b: BallM) -> bool {
    b.x - BALL_HALF <= -ARENA_HALF_W || b.x + BALL_HALF >= ARENA_HALF_W
}

/// The ball's top edge has passed the arena's top boundary.
pub open spec fn hits_top_wall(b: BallM) -> bool {
    b.y + BALL_HALF >= ARENA_HALF_H
}

/// The ball's bottom edge has passed the arena's bottom boundary: the round
/// is lost.
pub open spec fn below_bottom(b: BallM) -> bool {
    b.y - BALL_HALF <= -ARENA_HALF_H
}

/// The ball's square, centred at `(bx, by)`, overlaps the paddle.
pub open spec fn ball_paddle_overlap(bx: int, by: int, paddle_x: int) -> bool {
    aabb_overlap(bx, by, BALL_SIZE as int, BALL_SIZE as int, paddle_x, PADDLE_Y as int,
        PADDLE_WIDTH as int, PADDLE_HEIGHT as int)
}

/// The ball's square, centred at `(bx, by)`, overlaps a brick.
pub open spec fn ball_brick_overlap(bx: int, by: int, k: BrickM) -> bool {
    aabb_overlap(bx, by, BALL_SIZE as int, BALL_SIZE as int, k.x, k.y, BRICK_WIDTH as int,
        BRICK_HEIGHT as int)
}

/// Index of the first brick the ball overlaps, in storage order, or -1 when
/// it overlaps none. At most this one brick is affected in a frame, even if
/// the ball geometrically overlaps several.
pub open spec fn first_hit(bricks: Seq<BrickM>, bx: int, by: int) -> int
    decreases bricks.len(),
{
    if bricks.len() == 0 {
        -1
    } else if ball_brick_overlap(bx, by, bricks[0]) {
        0
    } else {
        let rest = first_hit(bricks.drop_first(), bx, by);
        if rest == -1 {
            -1
        } else {
            rest + 1
        }
    }
}

/// What `first_hit` finds: -1 exactly when no brick overlaps, and otherwise
/// the least overlapping index.
pub proof fn lemma_first_hit(bricks: Seq<BrickM>, bx: int, by: int)
    ensures
        first_hit(bricks, bx, by) == -1 ==> forall|i: int|
            0 <= i < bricks.len() ==> !ball_brick_overlap(bx, by, #[trigger] bricks[i]),
        first_hit(bricks, bx, by) != -1 ==> {
            &&& 0 <= first_hit(bricks, bx, by) < bricks.len()
            &&& ball_brick_overlap(bx, by, bricks[first_hit(bricks, bx, by)])
            &&& forall|i: int|
                0 <= i < first_hit(bricks, bx, by) ==> !ball_brick_overlap(
                    bx,
                    by,
                    #[trigger] bricks[i],
                )
        },
    decreases bricks.len(),
{
    if bricks.len() > 0 && !ball_brick_overlap(bx, by, bricks[0]) {
        let rest = bricks.drop_first();
        lemma_first_hit(rest, bx, by);
        let fr = first_hit(rest, bx, by);
        let fh = first_hit(bricks, bx, by);
        if fr == -1 {
            assert forall|i: int| 0 <= i < bricks.len() implies !ball_brick_overlap(
                bx,
                by,
                #[trigger] bricks[i],
            ) by {
                if i > 0 {
                    assert(rest[i - 1] == bricks[i]);
                }
            }
        } else {
            assert(fh == fr + 1);
            assert(bricks[fh] == rest[fr]);
            assert forall|i: int| 0 <= i < fh implies !ball_brick_overlap(
                bx,
                by,
                #[trigger] bricks[i],
            ) by {
                if i > 0 {
                    assert(rest[i - 1] == bricks[i]);
                }
            }
        }
    }
}

/// Scan the bricks in storage order and report the first one the ball
/// overlaps, exactly as `first_hit` names it.
fn find_first_hit(bricks: &Vec<Brick>, ball: &Ball) -> (r: Option<usize>)
    ensures
        ({
            let bs = bricks@.map_values(|k: Brick| k@);
            match r {
                Option::None => first_hit(bs, ball.x as int, ball.y as int) == -1,
                Option::Some(i) => 0 <= i < bricks@.len() && first_hit(bs, ball.x as int,
                    ball.y as int) == i,
            }
        }),
{
    let ghost bs = bricks@.map_values(|k: Brick| k@);
    let n: usize = bricks.len();
    let mut i: usize = 0;
    while i < n
        invariant
            n == bricks@.len(),
            bs == bricks@.map_values(|k: Brick| k@),
            0 <= i <= n,
            forall|j: int| 0 <= j < i ==> !ball_brick_overlap(ball.x as int, ball.y as int,
                #[trigger] bs[j]),
        decreases n - i,
    {
        let k = bricks[i];
        if overlaps(ball.x, ball.y, BALL_SIZE, k.x, k.y, BRICK_WIDTH, BRICK_HEIGHT) {
            proof {
                assert(bs[i as int] == bricks@[i as int]@);
                assert(ball_brick_overlap(ball.x as int, ball.y as int, bs[i as int]));
                lemma_first_hit(bs, ball.x as int, ball.y as int);
                assert(first_hit(bs, ball.x as int, ball.y as int) == i);
            }
            return Option::Some(i);
        }
        proof {
            assert(bs[i as int] == bricks@[i as int]@);
        }
        i = i + 1;
    }
    proof {
        lemma_first_hit(bs, ball.x as int, ball.y as int);
    }
    Option::None
}

/// A finished round stops the ball: velocity zeroed, state set.
pub open spec fn spec_end_round(g: GameM, outcome: GameState) -> GameM {
    GameM { ball: BallM { vx: 0, vy: 0, ..g.ball }, state: outcome, ..g }
}

/// If no brick is left, the round is won and the ball stops.
pub open spec fn spec_win_check(g: GameM) -> GameM {
    if g.bricks.len() == 0 {
        spec_end_round(g, GameState::Won)
    } else {
        g
    }
}

/// One frame of collision resolution, in its fixed order: side walls flip
/// `vx`; the top wall flips `vy`; crossing the bottom loses the round at
/// once, skipping the rest; the paddle forces `vy` upward; the first
/// overlapping brick flips `vy` and takes one damage, scoring and vanishing
/// at zero health; and a grid gone empty wins the round.
pub open spec fn spec_resolve(g: GameM) -> GameM {
    if g.state != GameState::Running {
        g
    } else {
        let vx1 = if hits_side_wall(g.ball) {
            -g.ball.vx
        } else {
            g.ball.vx
        };
        let vy1 = if hits_top_wall(g.ball) {
            -g.ball.vy
        } else {
            g.ball.vy
        };
        if below_bottom(g.ball) {
            spec_end_round(g, GameState::Lost)
        } else {
            let vy2 = if ball_paddle_overlap(g.ball.x, g.ball.y, g.paddle_x) {
                abs_i(vy1)
            } else {
                vy1
            };
            let h = first_hit(g.bricks, g.ball.x, g.ball.y);
            if h == -1 {
                spec_win_check(GameM { ball: BallM { vx: vx1, vy: vy2, ..g.ball }, ..g })
            } else {
                let hit = g.bricks[h];
                let after_ball = BallM { vx: vx1, vy: -vy2, ..g.ball };
                if hit.health == 1 {
                    spec_win_check(
                        GameM {
                            ball: after_ball,
                            bricks: g.bricks.remove(h),
                            score: g.score + (if hit.is_special {
                                2int
                            } else {
                                1int
                            }),
                            ..g
                        },
                    )
                } else {
                    spec_win_check(
                        GameM {
                            ball: after_ball,
                            bricks: g.bricks.update(h, BrickM { health: hit.health - 1, ..hit }),
                            ..g
                        },
                    )
                }
            }
        }
    }
}

/// Build the brick grid of a fresh round: `BRICK_ROWS` rows of `columns`
/// bricks, top row first, left to right.
pub fn make_bricks(columns: u32) -> (bricks: Vec<Brick>)
    requires
        1 <= columns <= MAX_COLUMNS,
    ensures
        bricks@.map_values(|b: Brick| b@) == spec_grid(columns as int),
{
    let mut bricks: Vec<Brick> = Vec::new();
    let mut row: u32 = 0;
    while row < BRICK_ROWS
        invariant
            1 <= columns <= MAX_COLUMNS,
            0 <= row <= BRICK_ROWS,
            bricks@.len() == row * columns,
            forall|k: int|
                0 <= k < bricks@.len() ==> (#[trigger] bricks@[k])@ == spec_grid(
                    columns as int,
                )[k],
        decreases BRICK_ROWS - row,
    {
        let mut col: u32 = 0;
        while col < columns
            invariant
                1 <= columns <= MAX_COLUMNS,
                0 <= row < BRICK_ROWS,
                0 <= col <= columns,
                bricks@.len() == row * columns + col,
                forall|k: int|
                    0 <= k < bricks@.len() ==> (#[trigger] bricks@[k])@ == spec_grid(
                        columns as int,
                    )[k],
            decreases columns - col,
        {
            let is_special: bool = (row + col) % 4 == 0;
            let brick = Brick {
                x: BRICK_LEFT_X + (col as i64) * BRICK_STRIDE_X,
                y: BRICK_TOP_Y - (row as i64) * BRICK_STRIDE_Y,
                health: if is_special {
                    2
                } else {
                    1
                },
                is_special,
            };
            proof {
                let k: int = row * columns + col;
                lemma_fundamental_div_mod_converse(k, columns as int, row as int, col as int);
                assert(brick@ == grid_brick(row as int, col as int));
                assert(spec_grid(columns as int)[k] == grid_brick(k / (columns as int), k % (
                columns as int)));
            }
            bricks.push(brick);
            col = col + 1;
        }
        proof {
            assert((row + 1) * columns == row * columns + columns) by (nonlinear_arith);
        }
        row = row + 1;
    }
    proof {
        assert(bricks@.map_values(|b: Brick| b@) =~= spec_grid(columns as int));
    }
    bricks
}

/// Where the paddle ends up after one frame: moved by the held keys at
/// `PADDLE_SPEED` for `dt`, then clamped to the arena. Whatever the
/// starting point — even one outside the clamp range — the result is
/// inside it.
pub fn paddle_step(x: i64, left: bool, right: bool, dt: i64) -> (r: i64)
    requires
        -POS_MAX <= x <= POS_MAX,
        0 <= dt <= DT_MAX,
    ensures
        r == spec_paddle_step(x as int, left, right, dt as int),
        PADDLE_MIN_X <= r <= PADDLE_MAX_X,
{
    let step: i64 = PADDLE_SPEED * dt;
    let delta: i64 = if right && !left {
        step
    } else if left && !right {
        -step
    } else {
        0
    };
    let moved: i64 = x + delta;
    proof {
        let s = spec_intent(left, right);
        let sd = (PADDLE_SPEED as int) * (dt as int);
        assert(s * PADDLE_SPEED * dt == (if s == 1 {
            sd
        } else if s == -1 {
            -sd
        } else {
            0int
        })) by (nonlinear_arith)
            requires
                s == 1 || s == 0 || s == -1,
                sd == (PADDLE_SPEED as int) * (dt as int),
        ;
        assert(moved == x + s * PADDLE_SPEED * dt);
    }
    if moved < PADDLE_MIN_X {
        PADDLE_MIN_X
    } else if moved > PADDLE_MAX_X {
        PADDLE_MAX_X
    } else {
        moved
    }
}

impl Game {
    /// Paddle control for one frame: while the round runs, the paddle
    /// follows the held keys; otherwise it is frozen.
    pub fn move_paddle(&mut self, left: bool, right: bool, dt: i64)
        requires
            old(self)@.inv(),
            0 <= dt <= DT_MAX,
        ensures
            final(self)@ == (if old(self)@.state == GameState::Running {
                GameM {
                    paddle_x: spec_paddle_step(old(self)@.paddle_x, left, right, dt as int),
                    ..old(self)@
                }
            } else {
                old(self)@
            }),
            final(self)@.inv(),
    {
        if self.state == GameState::Running {
            self.paddle.x = paddle_step(self.paddle.x, left, right, dt);
            proof {
                assert(self@ =~= (GameM {
                    paddle_x: spec_paddle_step(old(self)@.paddle_x, left, right, dt as int),
                    ..old(self)@
                }));
            }
        }
    }

    /// Ball flight for one frame: pure integration of the position from the
    /// velocity, collision-blind; frozen unless the round runs.
    pub fn move_ball(&mut self, dt: i64)
        requires
            old(self)@.inv(),
            old(self)@.ball_in_range(),
            0 <= dt <= DT_MAX,
        ensures
            final(self)@ == (if old(self)@.state == GameState::Running {
                GameM { ball: spec_ball_move(old(self)@.ball, dt as int), ..old(self)@ }
            } else {
                old(self)@
            }),
            final(self)@.inv(),
            abs_i(final(self)@.ball.x) <= POS_MAX + VEL_MAX * DT_MAX,
            abs_i(final(self)@.ball.y) <= POS_MAX + VEL_MAX * DT_MAX,
    {
        if self.state == GameState::Running {
            proof {
                let vx = self.ball.vx as int;
                let vy = self.ball.vy as int;
                assert(-(VEL_MAX as int) * DT_MAX <= vx * dt <= (VEL_MAX as int) * DT_MAX)
                    by (nonlinear_arith)
                    requires
                        -VEL_MAX <= vx <= VEL_MAX,
                        0 <= dt <= DT_MAX,
                ;
                assert(-(VEL_MAX as int) * DT_MAX <= vy * dt <= (VEL_MAX as int) * DT_MAX)
                    by (nonlinear_arith)
                    requires
                        -VEL_MAX <= vy <= VEL_MAX,
                        0 <= dt <= DT_MAX,
                ;
            }
            self.ball.x = self.ball.x + self.ball.vx * dt;
            self.ball.y = self.ball.y + self.ball.vy * dt;
            proof {
                assert(self@ =~= (GameM {
                    ball: spec_ball_move(old(self)@.ball, dt as int),
                    ..old(self)@
                }));
            }
        }
    }

    /// One frame of collision resolution, matching `spec_resolve` step for
    /// step: wall bounces flip a velocity axis, crossing the bottom loses
    /// the round at once, the paddle forces the ball upward, the first
    /// overlapping brick takes one damage (scoring and vanishing at zero
    /// health), and an emptied grid wins the round. Does nothing unless the
    /// round runs. Penetration is allowed: positions are never corrected.
    pub fn ball_collision(&mut self)
        requires
            old(self)@.inv(),
        ensures
            final(self)@ == spec_resolve(old(self)@),
            final(self)@.inv(),
            final(self)@.score >= old(self)@.score,
            final(self)@.ball.x == old(self)@.ball.x && final(self)@.ball.y == old(self)@.ball.y,
            abs_i(final(self)@.ball.vx) == abs_i(old(self)@.ball.vx) || (final(self)@.ball.vx == 0
                && final(self)@.state != GameState::Running),
            abs_i(final(self)@.ball.vy) == abs_i(old(self)@.ball.vy) || (final(self)@.ball.vy == 0
                && final(self)@.state != GameState::Running),
            old(self)@.state == GameState::Running && final(self)@.state == GameState::Won
                ==> final(self)@.bricks.len() == 0,
            old(self)@.state == GameState::Running && final(self)@.state == GameState::Lost
                ==> below_bottom(old(self)@.ball),
    {
        if self.state != GameState::Running {
            return;
        }
        let ghost g0 = self@;

        if self.ball.x as i128 - BALL_HALF as i128 <= -(ARENA_HALF_W as i128) || self.ball.x as i128
            + BALL_HALF as i128 >= ARENA_HALF_W as i128 {
            self.ball.vx = -self.ball.vx;
        }
        if self.ball.y as i128 + BALL_HALF as i128 >= ARENA_HALF_H as i128 {
            self.ball.vy = -self.ball.vy;
        }
        if self.ball.y as i128 - BALL_HALF as i128 <= -(ARENA_HALF_H as i128) {
            self.ball.vx = 0;
            self.ball.vy = 0;
            self.state = GameState::Lost;
            proof {
                assert(self@ =~= spec_resolve(g0));
            }
            return;
        }
        if overlaps(self.ball.x, self.ball.y, BALL_SIZE, self.paddle.x, PADDLE_Y, PADDLE_WIDTH,
            PADDLE_HEIGHT) {
            self.ball.vy = if self.ball.vy < 0 {
                -self.ball.vy
            } else {
                self.ball.vy
            };
        }
        match find_first_hit(&self.bricks, &self.ball) {
            Option::None => {},
            Option::Some(i) => {
                self.ball.vy = -self.ball.vy;
                let k: Brick = self.bricks[i];
                proof {
                    assert(g0.bricks[i as int] == self.bricks@[i as int]@);
                    assert(g0.bricks[i as int].health >= 1);
                }
                if k.health == 1 {
                    let w: u32 = if k.is_special {
                        2
                    } else {
                        1
                    };
                    self.score = self.score + w;
                    self.bricks.remove(i);
                    proof {
                        assert(self.bricks@.map_values(|b: Brick| b@) =~= g0.bricks.remove(
                        i as int));
                    }
                } else {
                    self.bricks[i] = Brick { health: k.health - 1, ..k };
                    proof {
                        assert(self.bricks@.map_values(|b: Brick| b@) =~= g0.bricks.update(
                        i as int, BrickM { health: k@.health - 1, ..k@ }));
                    }
                }
            },
        }
        if self.bricks.len() == 0 {
            self.ball.vx = 0;
            self.ball.vy = 0;
            self.state = GameState::Won;
        }
        proof {
            assert(self@ =~= spec_resolve(g0));
        }
    }

    /// A fresh game, before any round has been played: a freshly set-up
    /// round with no remembered score.
    pub fn new(columns: u32) -> (g: Game)
        requires
            1 <= columns <= MAX_COLUMNS,
        ensures
            g@ == spec_initial(columns as int, Option::None),
            g@.inv(),
            g@.ball_in_range(),
    {
        let g = Game {
            state: GameState::Running,
            paddle: Paddle { x: 0 },
            ball: Ball { x: BALL_START_X, y: BALL_START_Y, vx: BALL_START_VX, vy: BALL_START_VY },
            bricks: make_bricks(columns),
            score: 0,
            last_score: Option::None,
            panel_shown: false,
            columns,
        };
        proof {
            assert(g@ =~= spec_initial(columns as int, Option::None));
            lemma_initial_inv(columns as int, Option::None);
        }
        g
    }

    /// Ask for the end-of-round panel, exactly once per round end: when the
    /// round has ended and no panel exists yet, hand the renderer its
    /// content — the outcome, the final score, and the comparison with the
    /// remembered score (absent on the very first round).
    pub fn check_game_end(&mut self) -> (panel: Option<Panel>)
        requires
            old(self)@.inv(),
        ensures
            final(self)@ == (GameM {
                panel_shown: old(self)@.panel_shown || (panel is Some),
                ..old(self)@
            }),
            panel is Some <==> old(self)@.state != GameState::Running && !old(self)@.panel_shown,
            panel matches Option::Some(p) ==> {
                &&& p.won == (old(self)@.state == GameState::Won)
                &&& p.score == old(self)@.score
                &&& match old(self)@.last_score {
                    Option::None => p.compare is None,
                    Option::Some(l) => p.compare == Option::Some(
                        spec_compare(old(self)@.score, l),
                    ),
                }
            },
            final(self)@.inv(),
    {
        if self.state != GameState::Running && !self.panel_shown {
            self.panel_shown = true;
            let compare: Option<crate::messages::Comparison> = match self.last_score {
                Option::None => Option::None,
                Option::Some(l) => Option::Some(compare_scores(self.score, l)),
            };
            let p = Panel { won: self.state == GameState::Won, score: self.score, compare };
            proof {
                assert(self@ =~= (GameM { panel_shown: true, ..old(self)@ }));
            }
            Option::Some(p)
        } else {
            proof {
                assert(self@ =~= (GameM { panel_shown: old(self)@.panel_shown, ..old(self)@ }));
            }
            Option::None
        }
    }

    /// Restart on a fresh press of the restart key once the round has
    /// ended: remember the final score, reset the score to zero, and
    /// rebuild the paddle, ball and brick grid exactly as at setup. Says
    /// whether it restarted; the renderer then clears the panel.
    pub fn restart_game(&mut self, restart_pressed: bool) -> (restarted: bool)
        requires
            old(self)@.inv(),
        ensures
            restarted == (old(self)@.state != GameState::Running && restart_pressed),
            restarted ==> final(self)@ == spec_initial(
                old(self)@.columns,
                Option::Some(old(self)@.score),
            ),
            !restarted ==> final(self)@ == old(self)@,
            restarted ==> final(self)@.score == 0 && final(self)@.last_score == Option::Some(
                old(self)@.score,
            ),
            final(self)@.inv(),
    {
        if self.state != GameState::Running && restart_pressed {
            self.last_score = Option::Some(self.score);
            self.score = 0;
            self.state = GameState::Running;
            self.panel_shown = false;
            self.paddle = Paddle { x: 0 };
            self.ball = Ball {
                x: BALL_START_X,
                y: BALL_START_Y,
                vx: BALL_START_VX,
                vy: BALL_START_VY,
            };
            self.bricks = make_bricks(self.columns);
            proof {
                assert(self@ =~= spec_initial(old(self)@.columns, Option::Some(old(self)@.score)));
                lemma_initial_inv(old(self)@.columns, Option::Some(old(self)@.score));
            }
            true
        } else {
            false
        }
    }

    /// Whether the ball is still close enough to the arena that the next
    /// frame can be stepped; the driving loop checks it before each tick.
    pub fn ball_in_range_now(&self) -> (r: bool)
        ensures
            r == self@.ball_in_range(),
    {
        -POS_MAX <= self.ball.x && self.ball.x <= POS_MAX && -POS_MAX <= self.ball.y
            && self.ball.y <= POS_MAX
    }

    /// One whole frame: paddle control, ball flight and collision
    /// resolution (each only while the round runs), then the end-of-round
    /// panel request and the restart check, in that order. Returns what the
    /// renderer must be told.
    pub fn tick(&mut self, input: FrameInput, dt: i64) -> (ev: FrameEvents)
        requires
            old(self)@.inv(),
            old(self)@.ball_in_range(),
            0 <= dt <= DT_MAX,
        ensures
            ({
                let mid = spec_frame(old(self)@, input.left, input.right, dt as int);
                &&& (ev.panel is Some <==> mid.state != GameState::Running && !mid.panel_shown)
                &&& (ev.panel matches Option::Some(p) ==> {
                    &&& p.won == (mid.state == GameState::Won)
                    &&& p.score == mid.score
                    &&& match mid.last_score {
                        Option::None => p.compare is None,
                        Option::Some(l) => p.compare == Option::Some(spec_compare(mid.score, l)),
                    }
                })
                &&& ev.restarted == (mid.state != GameState::Running && input.restart)
                &&& final(self)@ == (if ev.restarted {
                    spec_initial(mid.columns, Option::Some(mid.score))
                } else {
                    GameM { panel_shown: mid.panel_shown || (ev.panel is Some), ..mid }
                })
            }),
            final(self)@.inv(),
            !ev.restarted ==> final(self)@.score >= old(self)@.score,
            ev.restarted ==> final(self)@.score == 0,
            abs_i(final(self)@.ball.x) <= POS_MAX + VEL_MAX * DT_MAX,
            abs_i(final(self)@.ball.y) <= POS_MAX + VEL_MAX * DT_MAX,
    {
        self.move_paddle(input.left, input.right, dt);
        self.move_ball(dt);
        self.ball_collision();
        let panel = self.check_game_end();
        let restarted = self.restart_game(input.restart);
        FrameEvents { panel, restarted }
    }
}

/// The key snapshot of one frame: whether the move-left, move-right and
/// restart intents are active. The restart intent must be edge-triggered by
/// the caller: true only on a fresh press, not while held.
#[derive(PartialEq, Eq, Structural, Clone, Copy, Debug)]
pub struct FrameInput {
    pub left: bool,
    pub right: bool,
    pub restart: bool,
}

/// What the renderer must be told after a frame: the panel to show, if one
/// was just requested, and whether a restart cleared the round (and with it
/// any panel).
#[derive(PartialEq, Eq, Structural, Clone, Copy, Debug)]
pub struct FrameEvents {
    pub panel: Option<Panel>,
    pub restarted: bool,
}

/// Wherever the paddle starts — even outside the clamp range — one step of
/// control leaves it inside the range; so, by induction, any sequence of
/// intents and frame deltas does.
pub proof fn lemma_paddle_stays_clamped(x: int, left: bool, right: bool, dt: int)
    ensures
        PADDLE_MIN_X <= spec_paddle_step(x, left, right, dt) <= PADDLE_MAX_X,
{
}

/// Bounces are energy-preserving: one frame of collision resolution either
/// keeps each velocity component's magnitude — at most flipping or forcing
/// its sign — or stops the ball because the round ended.
pub proof fn lemma_resolve_flips_sign_only(g: GameM)
    ensures
        ({
            let r = spec_resolve(g);
            &&& (abs_i(r.ball.vx) == abs_i(g.ball.vx) || (r.ball.vx == 0 && r.state
                != GameState::Running))
            &&& (abs_i(r.ball.vy) == abs_i(g.ball.vy) || (r.ball.vy == 0 && r.state
                != GameState::Running))
        }),
{
}

/// Collision resolution never lowers the score, and it reaches Won only
/// with the brick grid emptied and Lost only with the ball's bottom edge
/// past the arena's bottom boundary.
pub proof fn lemma_resolve_outcomes(g: GameM)
    ensures
        spec_resolve(g).score >= g.score,
        g.state == GameState::Running && spec_resolve(g).state == GameState::Won ==> spec_resolve(
            g,
        ).bricks.len() == 0,
        g.state == GameState::Running && spec_resolve(g).state == GameState::Lost ==> below_bottom(
            g.ball,
        ),
{
}

/// The state after the three movement-and-collision systems of one frame,
/// before the end-of-round and restart machinery looks at it.
pub open spec fn spec_frame(g: GameM, left: bool, right: bool, dt: int) -> GameM {
    let g1 = if g.state == GameState::Running {
        GameM { paddle_x: spec_paddle_step(g.paddle_x, left, right, dt), ..g }
    } else {
        g
    };
    let g2 = if g1.state == GameState::Running {
        GameM { ball: spec_ball_move(g1.ball, dt), ..g1 }
    } else {
        g1
    };
    spec_resolve(g2)
}

} // verus!

