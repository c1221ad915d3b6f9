//! Static evaluation: a pure function of the position producing a
//! centipawn score from the side to move's point of view. Material plus
//! small centralization terms; always well inside the mate range.

use vstd::prelude::*;

use crate::board::{Color, PieceType};
use crate::position::{count_bits, Position};
use crate::score::Score;

verus! {

/// Scores an eval can reach; far away from the mate encodings.
pub const EVAL_BOUND: Score = 30000;

fn material(pos: &Position, c: Color) -> (v: Score)
    requires
        pos.wf(),
    ensures
        0 <= v <= 14000,
{
    let pawns = count_bits(pos.pieces(c, PieceType::Pawn)) as i32;
    let knights = count_bits(pos.pieces(c, PieceType::Knight)) as i32;
    let bishops = count_bits(pos.pieces(c, PieceType::Bishop)) as i32;
    let rooks = count_bits(pos.pieces(c, PieceType::Rook)) as i32;
    let queens = count_bits(pos.pieces(c, PieceType::Queen)) as i32;
    let mut v = pawns * 100 + knights * 325 + bishops * 325 + rooks * 500 + queens * 975;
    if v > 14000 {
        v = 14000;
    }
    v
}

fn centralization(pos: &Position, c: Color) -> (v: Score)
    requires
        pos.wf(),
    ensures
        0 <= v <= 2000,
{
    let center: u64 = 0x0000_3c3c_3c3c_0000;
    let minors = pos.pieces(c, PieceType::Knight) | pos.pieces(c, PieceType::Bishop);
    let pawns = pos.pieces(c, PieceType::Pawn);
    let mut v = count_bits(minors & center) as i32 * 12 + count_bits(pawns & center) as i32 * 8;
    if v > 2000 {
        v = 2000;
    }
    v
}

/// The full static evaluation, from the side to move's point of view.
pub fn full(pos: &Position) -> (e: Score)
    requires
        pos.wf(),
    ensures
        -EVAL_BOUND <= e <= EVAL_BOUND,
{
    let us = pos.us();
    let them = pos.them();
    let mine = material(pos, us) + centralization(pos, us);
    let theirs = material(pos, them) + centralization(pos, them);
    mine - theirs + 10
}

/// The cheap evaluation used for pruning decisions before any search:
/// here the same pure function as the full one.
pub fn lazy(pos: &Position) -> (e: Score)
    requires
        pos.wf(),
    ensures
        -EVAL_BOUND <= e <= EVAL_BOUND,
{
    full(pos)
}

} // verus!
