use vstd::prelude::*;

use shakmaty::Color;

verus! {

/// The sign that turns a score for White into a score for `color`: one for
/// White, minus one for Black (`Color::fold_wb(1, -1)`).
pub fn white_relative(color: Color) -> (r: i32)
    ensures
        r == (match color {
            Color::White => 1i32,
            Color::Black => -1i32,
        }),
{
    match color {
        Color::White => 1,
        Color::Black => -1,
    }
}

/// The game phase from which on a position is scored as a pure midgame.
pub const PHASE_LIMIT: i32 = 24;

/// `a / b` rounded toward zero, as Rust's integer division rounds, for `b > 0`.
pub open spec fn div_toward_zero(a: int, b: int) -> int {
    if a >= 0 {
        a / b
    } else {
        -((-a) / b)
    }
}

/// The game phase, capped at `PHASE_LIMIT`.
pub open spec fn capped_phase(phase: int) -> int {
    if phase < PHASE_LIMIT {
        phase
    } else {
        PHASE_LIMIT as int
    }
}

/// The midgame score weighted by the capped phase plus the endgame score
/// weighted by what the phase leaves of `PHASE_LIMIT`.
pub open spec fn blended(midgame: int, endgame: int, phase: int) -> int {
    midgame * capped_phase(phase) + endgame * (PHASE_LIMIT - capped_phase(phase))
}

/// Whether `x` is an `i32`.
pub open spec fn fits_i32(x: int) -> bool {
    i32::MIN <= x <= i32::MAX
}

/// Whether every step of the blend stays an `i32`.
pub open spec fn blend_fits(midgame: int, endgame: int, phase: int) -> bool {
    let p = capped_phase(phase);
    &&& fits_i32(PHASE_LIMIT - p)
    &&& fits_i32(midgame * p)
    &&& fits_i32(endgame * (PHASE_LIMIT - p))
    &&& fits_i32(blended(midgame, endgame, phase))
}

/// The tapered score for the side to move `turn`: the blend of the midgame and
/// endgame scores (both for White) at the capped phase, divided by
/// `PHASE_LIMIT` rounding toward zero, and negated for Black.
pub open spec fn tapered_value(midgame: int, endgame: int, phase: int, turn: Color) -> int {
    let for_white = div_toward_zero(blended(midgame, endgame, phase), PHASE_LIMIT as int);
    match turn {
        Color::White => for_white,
        Color::Black => -for_white,
    }
}

/// The tapered score of the summed midgame and endgame scores (both for White)
/// and the summed game phase, for the side to move `turn`.
pub fn tapered_score(midgame: i32, endgame: i32, phase: i32, turn: Color) -> (r: i32)
    requires
        blend_fits(midgame as int, endgame as int, phase as int),
    ensures
        r == tapered_value(midgame as int, endgame as int, phase as int, turn),
{
    let p = if phase < PHASE_LIMIT {
        phase
    } else {
        PHASE_LIMIT
    };
    let rest = PHASE_LIMIT - p;
    let weighted_midgame = midgame * p;
    let weighted_endgame = endgame * rest;
    let sum = weighted_midgame + weighted_endgame;
    let wide = sum as i64;
    let tapered: i64 = if wide >= 0 {
        wide / 24
    } else {
        -((-wide) / 24)
    };
    assert(-0x8000_0000i64 / 24 <= tapered <= 0x7fff_ffffi64 / 24);
    let tapered = tapered as i32;
    white_relative(turn) * tapered
}

/// Handing the move to the other side flips the sign of the score.
pub proof fn lemma_turn_flips_sign(midgame: int, endgame: int, phase: int)
    ensures
        tapered_value(midgame, endgame, phase, Color::White) == -tapered_value(midgame, endgame, phase, Color::Black),
{
}

/// A position whose midgame and endgame scores are both zero, as a symmetric
/// one's are, scores zero for either side.
pub proof fn lemma_balanced_scores_zero(phase: int, turn: Color)
    ensures
        tapered_value(0, 0, phase, turn) == 0,
{
}

} // verus!
