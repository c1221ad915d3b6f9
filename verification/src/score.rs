//! Centipawn scores. Forced mates are encoded near the ends of the valid
//! range, offset by their distance from the root in plies.

use vstd::prelude::*;

verus! {

pub type Score = i32;

pub const MATE_SCORE: Score = 32000;

pub const MIN_SCORE: Score = -32767;

pub const MAX_SCORE: Score = 32767;

pub const DRAW_SCORE: Score = 0;

/// Transposition score bound kinds, combinable as bits.
pub const AT_MOST: u8 = 1;

pub const AT_LEAST: u8 = 2;

pub const EXACT: u8 = 3;

pub open spec fn spec_mate_in(ply: int) -> int {
    MATE_SCORE - ply
}

pub open spec fn spec_mated_in(ply: int) -> int {
    -MATE_SCORE + ply
}

pub open spec fn spec_score_is_valid(s: int) -> bool {
    MIN_SCORE <= s <= MAX_SCORE
}

pub open spec fn spec_is_mate_score(s: int) -> bool {
    s > spec_mate_in(128) || s < spec_mated_in(128)
}

/// The score of delivering mate after `ply` plies.
pub fn mate_in(ply: usize) -> (s: Score)
    requires
        ply <= 128,
    ensures
        s == spec_mate_in(ply as int),
{
    MATE_SCORE - ply as Score
}

/// The score of being mated after `ply` plies.
pub fn mated_in(ply: usize) -> (s: Score)
    requires
        ply <= 128,
    ensures
        s == spec_mated_in(ply as int),
{
    -MATE_SCORE + ply as Score
}

pub fn score_is_valid(s: Score) -> (r: bool)
    ensures
        r == spec_score_is_valid(s as int),
{
    MIN_SCORE <= s && s <= MAX_SCORE
}

pub fn is_mate_score(s: Score) -> (r: bool)
    ensures
        r == spec_is_mate_score(s as int),
{
    s > MATE_SCORE - 128 || s < -MATE_SCORE + 128
}

/// The signed distance of a mate score in full moves, as reported to
/// the protocol: positive when the side to move mates, negative when it
/// is mated.
pub fn mate_distance_moves(s: Score) -> (d: i32)
    requires
        spec_is_mate_score(s as int),
        -MATE_SCORE <= s <= MATE_SCORE,
    ensures
        s > 0 ==> d == (MATE_SCORE - s + 1) / 2,
        s < 0 ==> d == -((MATE_SCORE + s + 1) / 2),
{
    if s > 0 {
        (MATE_SCORE - s + 1) / 2
    } else {
        -((MATE_SCORE + s + 1) / 2)
    }
}

} // verus!
