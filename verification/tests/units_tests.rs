//! The leaf pieces: overlap geometry, paddle control, the brick grid and
//! the end-of-round texts.

use breakout_core::geometry::overlaps;
use breakout_core::messages::{
    compare_scores, comparison_text, headline_line, headline_text, restart_hint_text, u32_decimal,
    Comparison,
};
use breakout_core::sim::paddle_step;
use breakout_core::state::{Game, DEFAULT_COLUMNS, PADDLE_MAX_X, PADDLE_MIN_X, PX};

/// Strict overlap: boxes that merely touch along an edge do not overlap.
#[test]
fn touching_edges_do_not_overlap() {
    // Square of side 15 at x = 37.5: its left edge exactly touches the
    // 60-wide box at the origin.
    assert!(!overlaps(37_500_000_000, 0, 15 * PX, 0, 0, 60 * PX, 30 * PX));
    assert!(overlaps(37_499_999_999, 0, 15 * PX, 0, 0, 60 * PX, 30 * PX));
}

/// Overlap needs both axes: separation on one axis alone is no overlap.
#[test]
fn one_axis_apart_is_no_overlap() {
    assert!(!overlaps(0, 23 * PX, 15 * PX, 0, 0, 60 * PX, 30 * PX));
    assert!(overlaps(0, 22 * PX, 15 * PX, 0, 0, 60 * PX, 30 * PX));
}

/// Swapping the two boxes never changes the answer.
#[test]
fn overlap_is_symmetric() {
    let cases: [(i64, i64, i64, i64); 4] =
        [(0, 0, 10, 10), (37 * PX, 0, 5 * PX, -3 * PX), (-395 * PX, 0, 0, -250 * PX), (8, 9, 10, 11)];
    for (ax, ay, bx, by) in cases {
        let ab = overlaps(ax, ay, 15 * PX, bx, by, 15 * PX, 15 * PX);
        let ba = overlaps(bx, by, 15 * PX, ax, ay, 15 * PX, 15 * PX);
        assert_eq!(ab, ba);
    }
}

/// One frame of paddle control moves by speed times delta and clamps to the
/// arena; opposite keys cancel.
#[test]
fn paddle_moves_and_clamps() {
    // 500 px/s for 1/10 s = 50 px.
    assert_eq!(paddle_step(0, false, true, 100_000), 50 * PX);
    assert_eq!(paddle_step(0, true, false, 100_000), -50 * PX);
    assert_eq!(paddle_step(0, true, true, 100_000), 0);
    assert_eq!(paddle_step(0, false, false, 100_000), 0);
    // A two-second pull hits the clamp.
    assert_eq!(paddle_step(0, false, true, 2_000_000), PADDLE_MAX_X);
    assert_eq!(paddle_step(-330 * PX, true, false, 2_000_000), PADDLE_MIN_X);
    // Even a start outside the range is brought back in.
    assert_eq!(paddle_step(1_000_000 * PX, false, false, 16_667), PADDLE_MAX_X);
}

/// The fresh grid: two rows of twelve, positions from the layout formula,
/// and a brick special (health 2) exactly when row + column is divisible by
/// four.
#[test]
fn grid_layout() {
    let g = Game::new(DEFAULT_COLUMNS);
    assert_eq!(g.bricks.len(), 24);
    for row in 0..2u32 {
        for col in 0..12u32 {
            let b = g.bricks[(row * 12 + col) as usize];
            assert_eq!(b.x, -370 * PX + col as i64 * 65 * PX);
            assert_eq!(b.y, 270 * PX - row as i64 * 35 * PX);
            let special = (row + col) % 4 == 0;
            assert_eq!(b.is_special, special);
            assert_eq!(b.health, if special { 2 } else { 1 });
        }
    }
    assert_eq!(g.score, 0);
    assert_eq!(g.last_score, None);
    assert_eq!(g.paddle.x, 0);
}

/// The serve: position and velocity of a fresh ball.
#[test]
fn initial_serve() {
    let g = Game::new(DEFAULT_COLUMNS);
    assert_eq!(g.ball.x, 0);
    assert_eq!(g.ball.y, -200 * PX);
    // normalize(0.3, 0.5) * 300, to the nearest milli-pixel per second.
    assert_eq!(g.ball.vx, 154_349);
    assert_eq!(g.ball.vy, 257_248);
}

/// Score comparison and its three lines of text.
#[test]
fn comparison_lines() {
    assert_eq!(compare_scores(8, 3), Comparison::Higher);
    assert_eq!(compare_scores(3, 8), Comparison::Lower);
    assert_eq!(compare_scores(5, 5), Comparison::Same);
    assert_eq!(comparison_text(Comparison::Higher), "Better than just now");
    assert_eq!(comparison_text(Comparison::Lower), "Keep up the good work");
    assert_eq!(comparison_text(Comparison::Same), "Keep it up");
}

/// The headline openers and the restart hint.
#[test]
fn panel_texts() {
    assert_eq!(headline_text(true), "Congratulations! Final Score: ");
    assert_eq!(headline_text(false), "Game Over! Final Score: ");
    assert_eq!(restart_hint_text(), "Press R to restart");
}

/// Decimal rendering of scores: no leading zeros, zero itself as "0".
#[test]
fn decimal_rendering() {
    assert_eq!(u32_decimal(0), "0");
    assert_eq!(u32_decimal(7), "7");
    assert_eq!(u32_decimal(10), "10");
    assert_eq!(u32_decimal(31), "31");
    assert_eq!(u32_decimal(1_234_567_890), "1234567890");
    assert_eq!(u32_decimal(u32::MAX), "4294967295");
}

/// The full headline, score included.
#[test]
fn full_headlines() {
    assert_eq!(headline_line(true, 31), "Congratulations! Final Score: 31");
    assert_eq!(headline_line(false, 0), "Game Over! Final Score: 0");
}
