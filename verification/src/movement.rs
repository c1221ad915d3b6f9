//! Moves packed into a single 32-bit word: origin and target squares,
//! the moving piece, the captured piece, an optional promotion piece
//! type, and castling / en-passant flags.

use vstd::prelude::*;

verus! {

pub type Move = u32;

/// The absent move.
pub const NO_MOVE: Move = 0;

/// The placeholder for a null move (a pass used by the search).
pub const NULL_MOVE: Move = 0x0200_0000;

pub open spec fn move_from_spec(m: Move) -> u32 {
    m & 63
}

pub open spec fn move_to_spec(m: Move) -> u32 {
    (m >> 6) & 63
}

pub open spec fn move_piece_spec(m: Move) -> u32 {
    (m >> 12) & 15
}

pub open spec fn move_capture_spec(m: Move) -> u32 {
    (m >> 16) & 15
}

pub open spec fn move_promote_spec(m: Move) -> u32 {
    (m >> 20) & 7
}

pub open spec fn move_is_castle_spec(m: Move) -> bool {
    (m >> 23) & 1 == 1
}

pub open spec fn move_is_ep_spec(m: Move) -> bool {
    (m >> 24) & 1 == 1
}

/// Field ranges of a packed move, and the decomposition of a word built
/// from in-range fields.
pub proof fn lemma_move_bits()
    by (bit_vector)
    ensures
        forall|m: u32| #[trigger] (m & 63) < 64,
        forall|m: u32| #[trigger] ((m >> 6) & 63) < 64,
        forall|m: u32| #[trigger] ((m >> 12) & 15) < 16,
        forall|m: u32| #[trigger] ((m >> 16) & 15) < 16,
        forall|m: u32| #[trigger] ((m >> 20) & 7) < 8,
        forall|f: u32, t: u32, p: u32, c: u32, pr: u32, ca: u32, ep: u32|
            f < 64 && t < 64 && p < 16 && c < 16 && pr < 8 && ca < 2 && ep < 2 ==> {
                let m = #[trigger] (f | (t << 6) | (p << 12) | (c << 16) | (pr << 20) | (ca << 23)
                    | (ep << 24));
                m & 63 == f && (m >> 6) & 63 == t && (m >> 12) & 15 == p && (m >> 16) & 15 == c && (
                m >> 20) & 7 == pr && (m >> 23) & 1 == ca && (m >> 24) & 1 == ep
            },
{
}

/// Packs a move from its parts; each accessor then reads its part back.
pub fn make_move(f: u8, t: u8, piece: u8, capture: u8, promote: u8, castle: bool, ep: bool) -> (m:
    Move)
    requires
        f < 64,
        t < 64,
        piece < 16,
        capture < 16,
        promote < 8,
    ensures
        move_from_spec(m) == f,
        move_to_spec(m) == t,
        move_piece_spec(m) == piece,
        move_capture_spec(m) == capture,
        move_promote_spec(m) == promote,
        move_is_castle_spec(m) == castle,
        move_is_ep_spec(m) == ep,
{
    proof {
        lemma_move_bits();
    }
    let ca: u32 = if castle {
        1
    } else {
        0
    };
    let epf: u32 = if ep {
        1
    } else {
        0
    };
    (f as u32) | ((t as u32) << 6) | ((piece as u32) << 12) | ((capture as u32) << 16) | ((
    promote as u32) << 20) | (ca << 23) | (epf << 24)
}

pub fn move_from(m: Move) -> (r: u8)
    ensures
        r == move_from_spec(m),
        r < 64,
{
    proof {
        lemma_move_bits();
    }
    (m & 63) as u8
}

pub fn move_to(m: Move) -> (r: u8)
    ensures
        r == move_to_spec(m),
        r < 64,
{
    proof {
        lemma_move_bits();
    }
    ((m >> 6) & 63) as u8
}

pub fn move_piece(m: Move) -> (r: u8)
    ensures
        r == move_piece_spec(m),
        r < 16,
{
    proof {
        lemma_move_bits();
    }
    ((m >> 12) & 15) as u8
}

pub fn move_capture(m: Move) -> (r: u8)
    ensures
        r == move_capture_spec(m),
        r < 16,
{
    proof {
        lemma_move_bits();
    }
    ((m >> 16) & 15) as u8
}

pub fn move_promote(m: Move) -> (r: u8)
    ensures
        r == move_promote_spec(m),
        r < 8,
{
    proof {
        lemma_move_bits();
    }
    ((m >> 20) & 7) as u8
}

pub fn move_is_castle(m: Move) -> (r: bool)
    ensures
        r == move_is_castle_spec(m),
{
    (m >> 23) & 1 == 1
}

pub fn move_is_ep(m: Move) -> (r: bool)
    ensures
        r == move_is_ep_spec(m),
{
    (m >> 24) & 1 == 1
}

pub fn move_is_capture(m: Move) -> (r: bool)
    ensures
        r == (move_capture_spec(m) != 0),
{
    (m >> 16) & 15 != 0
}

pub fn move_is_promote(m: Move) -> (r: bool)
    ensures
        r == (move_promote_spec(m) != 0),
{
    (m >> 20) & 7 != 0
}

/// The coordinate notation of a move: origin and target squares, and the
/// promotion letter if any (`e2e4`, `e7e8q`).
pub fn move_to_str(m: Move) -> (s: String)
{
    let f = move_from(m);
    let t = move_to(m);
    let mut s = String::new();
    s.append(file_str(f % 8));
    s.append(rank_str(f / 8));
    s.append(file_str(t % 8));
    s.append(rank_str(t / 8));
    let pr = move_promote(m);
    if pr == 2 {
        s.append("n");
    } else if pr == 3 {
        s.append("b");
    } else if pr == 4 {
        s.append("r");
    } else if pr == 5 {
        s.append("q");
    }
    s
}

fn file_str(f: u8) -> (r: &'static str)
    requires
        f < 8,
{
    if f == 0 {
        "a"
    } else if f == 1 {
        "b"
    } else if f == 2 {
        "c"
    } else if f == 3 {
        "d"
    } else if f == 4 {
        "e"
    } else if f == 5 {
        "f"
    } else if f == 6 {
        "g"
    } else {
        "h"
    }
}

fn rank_str(r: u8) -> (s: &'static str)
    requires
        r < 8,
{
    if r == 0 {
        "1"
    } else if r == 1 {
        "2"
    } else if r == 2 {
        "3"
    } else if r == 3 {
        "4"
    } else if r == 4 {
        "5"
    } else if r == 5 {
        "6"
    } else if r == 6 {
        "7"
    } else {
        "8"
    }
}

} // verus!
