//! Frame-level behaviour of the simulation: flight, bounces, brick damage,
//! win and loss, and the restart machine.

use breakout_core::messages::Comparison;
use breakout_core::sim::FrameInput;
use breakout_core::state::{Ball, Brick, Game, GameState, Paddle, PX};

fn no_keys() -> FrameInput {
    FrameInput { left: false, right: false, restart: false }
}

fn running_game_with(ball: Ball, bricks: Vec<Brick>) -> Game {
    Game {
        state: GameState::Running,
        paddle: Paddle { x: 0 },
        ball,
        bricks,
        score: 0,
        last_score: None,
        panel_shown: false,
        columns: 12,
    }
}

/// Free flight: one sixtieth of a second at (90, 150) pixels per second
/// moves the ball by exactly velocity times delta, touching nothing.
#[test]
fn flight_without_collision() {
    let mut g = Game::new(12);
    g.ball = Ball { x: 0, y: -200 * PX, vx: 90_000, vy: 150_000 };
    let ev = g.tick(no_keys(), 16_667);
    assert_eq!(g.ball.x, 1_500_030_000);
    assert_eq!(g.ball.y, -197_499_950_000);
    assert_eq!(g.ball.vx, 90_000);
    assert_eq!(g.ball.vy, 150_000);
    assert!(g.state == GameState::Running);
    assert_eq!(g.score, 0);
    assert_eq!(g.bricks.len(), 24);
    assert!(ev.panel.is_none());
    assert!(!ev.restarted);
}

/// A ball moving left whose left edge passes the left boundary has its
/// horizontal velocity flipped to positive, same magnitude.
#[test]
fn left_wall_flips_vx() {
    let mut g = Game::new(12);
    g.ball = Ball { x: -395 * PX, y: 0, vx: -154_349, vy: 150_000 };
    g.tick(no_keys(), 16_667);
    assert_eq!(g.ball.x, -397_572_534_783);
    assert_eq!(g.ball.vx, 154_349);
    assert_eq!(g.ball.vy, 150_000);
    assert!(g.state == GameState::Running);
}

/// A ball rising past the top boundary has its vertical velocity flipped.
#[test]
fn top_wall_flips_vy() {
    let mut g = running_game_with(Ball { x: 0, y: 296 * PX, vx: 90_000, vy: 150_000 }, Vec::new());
    g.bricks = vec![Brick { x: -370 * PX, y: -100 * PX, health: 1, is_special: false }];
    g.ball_collision();
    assert_eq!(g.ball.vy, -150_000);
    assert_eq!(g.ball.vx, 90_000);
}

/// Crossing the bottom boundary loses the round at once: velocity zeroed,
/// nothing else resolved that frame.
#[test]
fn bottom_out_loses() {
    let mut g = running_game_with(
        Ball { x: 0, y: -293 * PX, vx: 90_000, vy: -150_000 },
        vec![Brick { x: 100 * PX, y: 100 * PX, health: 1, is_special: false }],
    );
    g.ball_collision();
    assert!(g.state == GameState::Lost);
    assert_eq!(g.ball.vx, 0);
    assert_eq!(g.ball.vy, 0);
    assert_eq!(g.bricks.len(), 1);
    assert_eq!(g.score, 0);
}

/// The paddle forces the ball upward: vy becomes its absolute value, vx is
/// left alone.
#[test]
fn paddle_forces_ball_up() {
    let mut g = running_game_with(
        Ball { x: 10 * PX, y: -245 * PX, vx: -90_000, vy: -150_000 },
        vec![Brick { x: 100 * PX, y: 100 * PX, health: 1, is_special: false }],
    );
    g.ball_collision();
    assert_eq!(g.ball.vy, 150_000);
    assert_eq!(g.ball.vx, -90_000);
    assert!(g.state == GameState::Running);
}

/// Destroying the last brick: health reaches zero, the brick is removed,
/// one point is scored, the round is won and the ball stops.
#[test]
fn last_brick_wins_round() {
    let mut g = running_game_with(
        Ball { x: 100 * PX, y: 100 * PX, vx: 90_000, vy: -150_000 },
        vec![Brick { x: 100 * PX, y: 100 * PX, health: 1, is_special: false }],
    );
    g.ball_collision();
    assert_eq!(g.bricks.len(), 0);
    assert_eq!(g.score, 1);
    assert!(g.state == GameState::Won);
    assert_eq!(g.ball.vx, 0);
    assert_eq!(g.ball.vy, 0);
}

/// Hitting a special brick once: health drops from 2 to 1, the brick stays,
/// no score is awarded and the round keeps running; the ball's vertical
/// velocity is flipped.
#[test]
fn special_brick_survives_first_hit() {
    let mut g = running_game_with(
        Ball { x: 100 * PX, y: 100 * PX, vx: 90_000, vy: -150_000 },
        vec![Brick { x: 100 * PX, y: 100 * PX, health: 2, is_special: true }],
    );
    g.ball_collision();
    assert_eq!(g.bricks.len(), 1);
    assert_eq!(g.bricks[0].health, 1);
    assert!(g.bricks[0].is_special);
    assert_eq!(g.score, 0);
    assert!(g.state == GameState::Running);
    assert_eq!(g.ball.vy, 150_000);
}

/// A destroyed special brick pays two points.
#[test]
fn special_brick_pays_double() {
    let mut g = running_game_with(
        Ball { x: 100 * PX, y: 100 * PX, vx: 90_000, vy: -150_000 },
        vec![
            Brick { x: 100 * PX, y: 100 * PX, health: 1, is_special: true },
            Brick { x: -300 * PX, y: 100 * PX, health: 1, is_special: false },
        ],
    );
    g.ball_collision();
    assert_eq!(g.score, 2);
    assert_eq!(g.bricks.len(), 1);
    assert!(g.state == GameState::Running);
}

/// Only the first overlapping brick in storage order is hit in a frame.
#[test]
fn first_overlapping_brick_only() {
    let mut g = running_game_with(
        Ball { x: 100 * PX, y: 100 * PX, vx: 90_000, vy: -150_000 },
        vec![
            Brick { x: 90 * PX, y: 100 * PX, health: 2, is_special: false },
            Brick { x: 110 * PX, y: 100 * PX, health: 2, is_special: false },
        ],
    );
    g.ball_collision();
    assert_eq!(g.bricks[0].health, 1);
    assert_eq!(g.bricks[1].health, 2);
}

/// Restart from a lost round: the score is remembered, cleared, and the
/// whole round is rebuilt exactly as at setup.
#[test]
fn restart_after_loss() {
    let mut g = Game::new(12);
    g.state = GameState::Lost;
    g.ball = Ball { x: 0, y: -310 * PX, vx: 0, vy: 0 };
    g.score = 7;
    g.bricks.truncate(5);
    let ev = g.tick(FrameInput { left: false, right: false, restart: true }, 16_667);
    assert!(ev.restarted);
    let panel = ev.panel.expect("a panel is requested before the restart clears it");
    assert!(!panel.won);
    assert_eq!(panel.score, 7);
    assert!(panel.compare.is_none());
    assert_eq!(g.last_score, Some(7));
    assert_eq!(g.score, 0);
    assert!(g.state == GameState::Running);
    assert_eq!(g.paddle.x, 0);
    assert_eq!(g.ball, Ball { x: 0, y: -200 * PX, vx: 154_349, vy: 257_248 });
    let fresh = Game::new(12);
    assert_eq!(g.bricks, fresh.bricks);
    assert!(!g.panel_shown);
}

/// The restart key does nothing while the round runs.
#[test]
fn restart_ignored_while_running() {
    let mut g = Game::new(12);
    let ev = g.tick(FrameInput { left: false, right: false, restart: true }, 16_667);
    assert!(!ev.restarted);
    assert!(g.state == GameState::Running);
    assert_eq!(g.last_score, None);
}

/// The end-of-round panel is requested exactly once per round end.
#[test]
fn panel_requested_once() {
    let mut g = Game::new(12);
    g.state = GameState::Won;
    g.ball = Ball { x: 0, y: 0, vx: 0, vy: 0 };
    g.bricks.clear();
    g.score = 31;
    let first = g.tick(no_keys(), 16_667);
    let second = g.tick(no_keys(), 16_667);
    let panel = first.panel.expect("the frame after the win requests the panel");
    assert!(panel.won);
    assert_eq!(panel.score, 31);
    assert!(second.panel.is_none());
}

/// The comparison carried by the panel reflects the remembered score.
#[test]
fn panel_compares_with_last_score() {
    let mut g = Game::new(12);
    g.state = GameState::Lost;
    g.ball = Ball { x: 0, y: -310 * PX, vx: 0, vy: 0 };
    g.score = 4;
    g.last_score = Some(9);
    let ev = g.tick(no_keys(), 16_667);
    let panel = ev.panel.expect("the frame after the loss requests the panel");
    assert_eq!(panel.compare, Some(Comparison::Lower));
}

/// Score accumulates across hits within a round.
#[test]
fn score_accumulates() {
    let mut g = running_game_with(
        Ball { x: 100 * PX, y: 100 * PX, vx: 0, vy: -150_000 },
        vec![
            Brick { x: 100 * PX, y: 100 * PX, health: 1, is_special: false },
            Brick { x: 100 * PX, y: 100 * PX, health: 1, is_special: true },
        ],
    );
    g.ball_collision();
    assert_eq!(g.score, 1);
    g.ball.vy = -150_000;
    g.ball_collision();
    assert_eq!(g.score, 3);
    assert!(g.state == GameState::Won);
}

/// The renderer's damage hint: shown for a special brick that survived a
/// hit, not for fresh bricks.
#[test]
fn damaged_brick_hint() {
    let mut g = running_game_with(
        Ball { x: 100 * PX, y: 100 * PX, vx: 90_000, vy: -150_000 },
        vec![
            Brick { x: 100 * PX, y: 100 * PX, health: 2, is_special: true },
            Brick { x: -300 * PX, y: 100 * PX, health: 1, is_special: false },
        ],
    );
    assert!(!g.bricks[0].is_damaged());
    assert!(!g.bricks[1].is_damaged());
    g.ball_collision();
    assert!(g.bricks[0].is_damaged());
    assert!(!g.bricks[1].is_damaged());
}

/// Wall and brick checks are independent: one frame can flip both axes.
#[test]
fn wall_and_brick_in_same_frame() {
    let mut g = running_game_with(
        Ball { x: -395 * PX, y: 100 * PX, vx: -90_000, vy: -150_000 },
        vec![Brick { x: -370 * PX, y: 100 * PX, health: 2, is_special: true }],
    );
    g.ball_collision();
    assert_eq!(g.ball.vx, 90_000);
    assert_eq!(g.ball.vy, 150_000);
    assert_eq!(g.bricks[0].health, 1);
}

/// Over a long unattended session the score never decreases while the
/// round lasts.
#[test]
fn score_monotone_over_frames() {
    let mut g = Game::new(12);
    let mut prev: u32 = 0;
    for _ in 0..3600 {
        g.tick(no_keys(), 16_667);
        assert!(g.score >= prev);
        prev = g.score;
        if g.state != GameState::Running {
            break;
        }
    }
}
