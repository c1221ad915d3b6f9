//! Bitboards: 64-bit words representing sets of board squares, together
//! with the geometric masks the evaluation and the search consume.
//!
//! Every mask-producing function is specified square by square: the
//! `ensures` clause characterizes exactly which bits of the result are set.

use vstd::prelude::*;
use vstd::std_specs::bits::u64_trailing_zeros;

use crate::board::{chebyshev, file_of, rank_of, square_ok, Color, Delta, File, Rank, Square};

verus! {

pub type Bitboard = u64;

/// Bit `i` of `b`, the membership test for square `i`.
pub open spec fn bit64(b: u64, i: u64) -> bool {
    (b >> i) & 1 == 1
}

/// Basic facts about bitwise operations, read square by square.
pub proof fn lemma_bit_basics()
    by (bit_vector)
    ensures
        forall|j: u64| j < 64 ==> !#[trigger] bit64(0u64, j),
        forall|j: u64| j < 64 ==> #[trigger] bit64(!0u64, j),
        forall|t: u64, j: u64| t < 64 && j < 64 ==> (#[trigger] bit64(1u64 << t, j) <==> j == t),
        forall|a: u64, b: u64, j: u64| j < 64 ==> (#[trigger] bit64(a | b, j) <==> (bit64(a, j)
            || bit64(b, j))),
        forall|a: u64, b: u64, j: u64| j < 64 ==> (#[trigger] bit64(a & b, j) <==> (bit64(a, j)
            && bit64(b, j))),
        forall|a: u64, b: u64, j: u64| j < 64 ==> (#[trigger] bit64(a ^ b, j) <==> (bit64(a, j)
            != bit64(b, j))),
        forall|a: u64, j: u64| j < 64 ==> (#[trigger] bit64(!a, j) <==> !bit64(a, j)),
        forall|r: u64, j: u64| r < 8 && j < 64 ==> (#[trigger] bit64(0xffu64 << (r * 8), j) <==> j
            / 8 == r),
        forall|f: u64, j: u64| f < 8 && j < 64 ==> (#[trigger] bit64(0x0101010101010101u64 << f, j)
            <==> j % 8 == f),
{
}

/// Two words with the same bits are the same word.
pub proof fn lemma_bit_ext(a: u64, b: u64)
    requires
        forall|j: u64| j < 64 ==> bit64(a, j) == bit64(b, j),
    ensures
        a == b,
{
    lemma_bit_basics();
    let c = a ^ b;
    if c != 0 {
        vstd::std_specs::bits::axiom_u64_trailing_zeros(c);
        let t = u64_trailing_zeros(c) as u64;
        assert(bit64(c, t));
        assert(bit64(a, t) == bit64(b, t));
        assert(false);
    }
    assert(a ^ b == 0 ==> a == b) by (bit_vector);
}

/// Conversion of a typed identifier into the bitboard of its squares.
pub trait IntoBitboard {
    spec fn spec_bits(self, j: u64) -> bool;

    fn into_bitboard(self) -> (b: Bitboard)
        ensures
            forall|j: u64| j < 64 ==> #[trigger] bit64(b, j) == self.spec_bits(j),
    ;
}

impl IntoBitboard for Rank {
    open spec fn spec_bits(self, j: u64) -> bool {
        self.0 < 8 && rank_of(j as u8) == self.0
    }

    fn into_bitboard(self) -> (b: Bitboard)
        ensures
            forall|j: u64| j < 64 ==> #[trigger] bit64(b, j) == self.spec_bits(j),
    {
        if self.0 < 8 {
            let b = 0xffu64 << (self.0 as u64 * 8);
            proof {
                lemma_bit_basics();
            }
            b
        } else {
            proof {
                lemma_bit_basics();
            }
            0
        }
    }
}

impl IntoBitboard for File {
    open spec fn spec_bits(self, j: u64) -> bool {
        self.0 < 8 && file_of(j as u8) == self.0
    }

    fn into_bitboard(self) -> (b: Bitboard)
        ensures
            forall|j: u64| j < 64 ==> #[trigger] bit64(b, j) == self.spec_bits(j),
    {
        if self.0 < 8 {
            let b = 0x0101010101010101u64 << (self.0 as u64);
            proof {
                lemma_bit_basics();
            }
            b
        } else {
            proof {
                lemma_bit_basics();
            }
            0
        }
    }
}

impl IntoBitboard for Square {
    open spec fn spec_bits(self, j: u64) -> bool {
        self < 64 && j == self
    }

    fn into_bitboard(self) -> (b: Bitboard)
        ensures
            forall|j: u64| j < 64 ==> #[trigger] bit64(b, j) == self.spec_bits(j),
    {
        if self < 64 {
            let b = 1u64 << (self as u64);
            proof {
                lemma_bit_basics();
            }
            b
        } else {
            proof {
                lemma_bit_basics();
            }
            0
        }
    }
}

/// The bitboard of a typed identifier: a single square, a whole rank or a
/// whole file.
pub fn bb<T: IntoBitboard>(x: T) -> (b: Bitboard)
    ensures
        forall|j: u64| j < 64 ==> #[trigger] bit64(b, j) == x.spec_bits(j),
{
    x.into_bitboard()
}

/// The rank of `r` as seen from `c`'s side of the board.
pub fn relative_rank_bb(c: Color, r: Rank) -> (b: Bitboard)
    requires
        r.0 < 8,
    ensures
        forall|j: u64| j < 64 ==> #[trigger] bit64(b, j) == (c == Color::White && rank_of(j as u8)
            == r.0 || c == Color::Black && rank_of(j as u8) == 7 - r.0),
{
    bb(r.relative_to(c))
}

/// The square holding the lowest set bit of `b`.
pub fn lsb(b: Bitboard) -> (s: Square)
    requires
        b != 0,
    ensures
        s < 64,
        bit64(b, s as u64),
        forall|j: u64| j < s ==> !#[trigger] bit64(b, j),
        s == u64_trailing_zeros(b),
{
    proof {
        vstd::std_specs::bits::axiom_u64_trailing_zeros(b);
    }
    b.trailing_zeros() as u8
}

/// Removes the lowest set bit of `b` and returns its square: exactly that
/// bit is cleared and every other bit is kept.
pub fn pop_square(b: &mut Bitboard) -> (s: Square)
    requires
        *old(b) != 0,
    ensures
        s < 64,
        s == u64_trailing_zeros(*old(b)),
        bit64(*old(b), s as u64),
        !bit64(*final(b), s as u64),
        forall|j: u64| j < 64 && j != s ==> #[trigger] bit64(*final(b), j) == bit64(*old(b), j),
        *final(b) == *old(b) & !(1u64 << (s as u64)),
{
    let s = lsb(*b);
    proof {
        let b0 = *b;
        let t = s as u64;
        vstd::std_specs::bits::axiom_u64_trailing_zeros(b0);
        assert(b0 << vstd::prelude::sub(64u64, t) == 0);
        assert(b0 & vstd::prelude::sub(b0, 1) == b0 & !(1u64 << t)) by (bit_vector)
            requires
                b0 != 0,
                t < 64,
                (b0 >> t) & 1 == 1,
                b0 << vstd::prelude::sub(64u64, t) == 0,
        ;
        lemma_bit_basics();
    }
    *b = *b & (*b - 1);
    s
}

/// Two words share a set bit exactly when their intersection is not
/// empty.
pub proof fn lemma_and_nonzero(x: u64, y: u64)
    ensures
        (x & y != 0) == (exists|j: u64| j < 64 && #[trigger] bit64(x, j) && bit64(y, j)),
{
    lemma_bit_basics();
    if x & y != 0 {
        vstd::std_specs::bits::axiom_u64_trailing_zeros(x & y);
        let t = u64_trailing_zeros(x & y) as u64;
        assert(bit64(x & y, t));
        assert(bit64(x, t) && bit64(y, t));
    }
    if exists|j: u64| j < 64 && #[trigger] bit64(x, j) && bit64(y, j) {
        let j = choose|j: u64| j < 64 && #[trigger] bit64(x, j) && bit64(y, j);
        assert(bit64(x & y, j));
        if x & y == 0 {
            assert(!bit64(0u64, j));
            assert(false);
        }
    }
}

/// The character standing at position `i` of the board picture of `b`:
/// a leading newline, then eight rows from rank 8 down to rank 1, each
/// eight `'x'`/`'.'` squares followed by a newline.
pub open spec fn board_char_at(b: u64, i: int) -> char {
    if i % 9 == 0 {
        '\n'
    } else {
        let row = (i - 1) / 9;
        let col = (i - 1) % 9;
        if bit64(b, ((7 - row) * 8 + col) as u64) {
            'x'
        } else {
            '.'
        }
    }
}

/// `s` is the board picture of `b`.
pub open spec fn board_string_of(b: u64, s: Seq<char>) -> bool {
    s.len() == 73 && forall|i: int| 0 <= i < 73 ==> s[i] == board_char_at(b, i)
}

/// The position of square `t` inside a board picture.
pub open spec fn board_char_pos(t: u64) -> int {
    1 + 9 * (7 - t / 8) + t % 8
}

/// `b` holds exactly the squares drawn as `'x'` in `s`.
pub open spec fn board_of_string(s: Seq<char>, b: u64) -> bool {
    forall|t: u64| t < 64 ==> (#[trigger] bit64(b, t) <==> s[board_char_pos(t)] == 'x')
}

/// A well-formed board picture: newlines in the newline positions and a
/// square character everywhere else.
pub open spec fn canonical_board_string(s: Seq<char>) -> bool {
    s.len() == 73 && (forall|i: int|
        0 <= i < 73 && i % 9 == 0 ==> s[i] == '\n') && (forall|i: int|
        0 <= i < 73 && i % 9 != 0 ==> s[i] == 'x' || s[i] == '.')
}

/// Draws `b` as text: eight rows from rank 8 down to rank 1, an `'x'` for
/// each occupied square and a `'.'` for each empty one.
pub fn bb_to_str(b: Bitboard) -> (s: String)
    ensures
        board_string_of(b, s@),
        board_of_string(s@, b),
        canonical_board_string(s@),
{
    proof {
        reveal_strlit("x");
        reveal_strlit(".");
        reveal_strlit("\n");
    }
    let mut s = String::new();
    let mut i: u8 = 0;
    while i < 73
        invariant
            i <= 73,
            s@.len() == i,
            forall|j: int| 0 <= j < i ==> s@[j] == board_char_at(b, j),
        decreases 73 - i,
    {
        proof {
            reveal_strlit("x");
            reveal_strlit(".");
            reveal_strlit("\n");
        }
        if i % 9 == 0 {
            s.append("\n");
        } else {
            let row = (i - 1) / 9;
            let col = (i - 1) % 9;
            let t = (7 - row) * 8 + col;
            if (b >> (t as u64)) & 1 == 1 {
                s.append("x");
            } else {
                s.append(".");
            }
        }
        i = i + 1;
    }
    proof {
        lemma_board_positions(b, s@);
    }
    s
}

/// In a 73-character board picture, the character of square `t` stands at
/// `board_char_pos(t)`, and that position holds `'x'` or `'.'`.
proof fn lemma_board_positions(b: u64, s: Seq<char>)
    requires
        board_string_of(b, s),
    ensures
        board_of_string(s, b),
        canonical_board_string(s),
{
    assert forall|t: u64| t < 64 implies (#[trigger] bit64(b, t) <==> s[board_char_pos(t)]
        == 'x') by {
        let i = board_char_pos(t);
        assert(i == 1 + 9 * (7 - t / 8) + t % 8);
        assert(0 <= i < 73);
        assert(i % 9 == (1 + t % 8) % 9);
        assert(i % 9 != 0);
        assert((i - 1) / 9 == 7 - t / 8 && (i - 1) % 9 == t % 8);
        assert(((7 - (i - 1) / 9) * 8 + (i - 1) % 9) as u64 == t);
    }
}

/// Reads a board picture back into a bitboard: bit `t` is set exactly
/// when the picture draws square `t` as `'x'`. The picture must be in
/// the canonical 73-character layout that `bb_to_str` draws (a leading
/// newline, then eight 8-character rows each ending in a newline);
/// that layout is this library's convention for board text.
pub fn bb_from_str(s: &str) -> (b: Bitboard)
    requires
        s@.len() == 73,
    ensures
        board_of_string(s@, b),
{
    proof {
        lemma_bit_basics();
        reveal_strlit("x");
    }
    let mut b: u64 = 0;
    let mut t: u8 = 0;
    while t < 64
        invariant
            t <= 64,
            s@.len() == 73,
            forall|j: u64|
                j < 64 ==> (#[trigger] bit64(b, j) <==> (j < t && s@[board_char_pos(j)] == 'x')),
        decreases 64 - t,
    {
        proof {
            lemma_bit_basics();
            reveal_strlit("x");
        }
        let pos: usize = 1 + 9 * (7 - (t as usize) / 8) + (t as usize) % 8;
        assert(pos == board_char_pos(t as u64));
        let c = s.get_char(pos);
        if c == 'x' {
            b = b | (1u64 << (t as u64));
        }
        t = t + 1;
    }
    b
}

/// Reading a picture of `b` back yields `b` itself.
pub proof fn lemma_bb_string_round_trip(b: u64, s: Seq<char>, b2: u64)
    requires
        board_string_of(b, s),
        board_of_string(s, b2),
    ensures
        b2 == b,
{
    lemma_board_positions(b, s);
    assert forall|j: u64| j < 64 implies bit64(b2, j) == bit64(b, j) by {
        assert(bit64(b, j) <==> s[board_char_pos(j)] == 'x');
        assert(bit64(b2, j) <==> s[board_char_pos(j)] == 'x');
    }
    lemma_bit_ext(b2, b);
}

/// Drawing the bitboard read from a well-formed picture reproduces that
/// picture character for character.
pub proof fn lemma_bb_string_round_trip_rev(s: Seq<char>, b: u64, s2: Seq<char>)
    requires
        canonical_board_string(s),
        board_of_string(s, b),
        board_string_of(b, s2),
    ensures
        s2 =~= s,
{
    assert forall|i: int| 0 <= i < 73 implies s2[i] == s[i] by {
        if i % 9 == 0 {
            assert(s2[i] == '\n');
            assert(s[i] == '\n');
        } else {
            let row = (i - 1) / 9;
            let col = (i - 1) % 9;
            let t = ((7 - row) * 8 + col) as u64;
            assert(0 <= (i - 1) / 9 < 8 && 0 <= (i - 1) % 9 < 8) by {
                assert(i % 9 != 0 && 0 < i < 73);
            }
            assert(t < 64);
            assert(board_char_pos(t) == i);
            assert(bit64(b, t) <==> s[i] == 'x');
            assert(s2[i] == board_char_at(b, i));
            assert(s2[i] == (if bit64(b, t) {
                'x'
            } else {
                '.'
            }));
            assert(s[i] == 'x' || s[i] == '.');
        }
    }
}

/// Square `t` lies on a file adjacent to the file of `s`.
pub open spec fn neighbor_file_pred(f: u8, t: u64) -> bool {
    t < 64 && (file_of(t as u8) == f + 1 || file_of(t as u8) + 1 == f)
}

/// Square `t` lies in front of `s` from `side`'s point of view, on the
/// same file or an adjacent one: the passed-pawn mask.
pub open spec fn passer_pred(side: Color, s: Square, t: u64) -> bool {
    t < 64 && (file_of(t as u8) <= file_of(s) + 1 && file_of(s) <= file_of(t as u8) + 1) && (
    if side == Color::White {
        rank_of(t as u8) > rank_of(s)
    } else {
        rank_of(t as u8) < rank_of(s)
    })
}

/// The forward part of the same file: the in-front mask.
pub open spec fn in_front_pred(side: Color, s: Square, t: u64) -> bool {
    passer_pred(side, s, t) && file_of(t as u8) == file_of(s)
}

/// The forward part of the adjacent files only: the outpost mask.
pub open spec fn outpost_pred(side: Color, s: Square, t: u64) -> bool {
    passer_pred(side, s, t) && file_of(t as u8) != file_of(s)
}

/// Square `t` has the same shade (light or dark) as `s`.
pub open spec fn same_shade_pred(s: Square, t: u64) -> bool {
    t < 64 && (rank_of(t as u8) + file_of(t as u8)) % 2 == (rank_of(s) + file_of(s)) % 2
}

/// Square `t` is a king move away from `s`.
pub open spec fn king_att_pred(s: Square, t: u64) -> bool {
    t < 64 && t != s && chebyshev(s, t as u8) == 1
}

/// Square `t` is a knight move away from `s`.
pub open spec fn knight_att_pred(s: Square, t: u64) -> bool {
    let rd = if rank_of(s) >= rank_of(t as u8) {
        rank_of(s) - rank_of(t as u8)
    } else {
        rank_of(t as u8) - rank_of(s)
    };
    let fd = if file_of(s) >= file_of(t as u8) {
        file_of(s) - file_of(t as u8)
    } else {
        file_of(t as u8) - file_of(s)
    };
    t < 64 && (rd == 1 && fd == 2 || rd == 2 && fd == 1)
}

/// Square `t` is attacked by a pawn of `side` standing on `s`.
pub open spec fn pawn_att_pred(side: Color, s: Square, t: u64) -> bool {
    t < 64 && (file_of(t as u8) == file_of(s) + 1 || file_of(t as u8) + 1 == file_of(s)) && (
    if side == Color::White {
        rank_of(t as u8) == rank_of(s) + 1
    } else {
        rank_of(t as u8) + 1 == rank_of(s)
    })
}

/// The two files adjacent to `f`, clipped at the board edges.
pub fn neighbor_mask(f: File) -> (m: Bitboard)
    requires
        f.0 < 8,
    ensures
        forall|j: u64| j < 64 ==> #[trigger] bit64(m, j) == neighbor_file_pred(f.0, j),
{
    proof {
        lemma_bit_basics();
    }
    let mut m: u64 = 0;
    let mut t: u8 = 0;
    while t < 64
        invariant
            t <= 64,
            f.0 < 8,
            forall|j: u64| j < 64 ==> (#[trigger] bit64(m, j) <==> (j < t && neighbor_file_pred(
                f.0,
                j,
            ))),
        decreases 64 - t,
    {
        proof {
            lemma_bit_basics();
        }
        let tf = t % 8;
        if tf == f.0 + 1 || tf + 1 == f.0 {
            m = m | (1u64 << (t as u64));
        }
        t = t + 1;
    }
    m
}

/// The passed-pawn mask: all squares in front of `s` from `side`'s point
/// of view on the same and the adjacent files.
pub fn passer_mask(side: Color, s: Square) -> (m: Bitboard)
    requires
        square_ok(s),
    ensures
        forall|j: u64| j < 64 ==> #[trigger] bit64(m, j) == passer_pred(side, s, j),
{
    proof {
        lemma_bit_basics();
    }
    let mut m: u64 = 0;
    let mut t: u8 = 0;
    while t < 64
        invariant
            t <= 64,
            square_ok(s),
            forall|j: u64| j < 64 ==> (#[trigger] bit64(m, j) <==> (j < t && passer_pred(
                side,
                s,
                j,
            ))),
        decreases 64 - t,
    {
        proof {
            lemma_bit_basics();
        }
        let tf = t % 8;
        let sf = s % 8;
        let forward = match side {
            Color::White => t / 8 > s / 8,
            Color::Black => t / 8 < s / 8,
        };
        if (tf <= sf + 1 && sf <= tf + 1) && forward {
            m = m | (1u64 << (t as u64));
        }
        t = t + 1;
    }
    m
}

/// The forward squares of `s`'s own file.
pub fn in_front_mask(side: Color, s: Square) -> (m: Bitboard)
    requires
        square_ok(s),
    ensures
        forall|j: u64| j < 64 ==> #[trigger] bit64(m, j) == in_front_pred(side, s, j),
{
    proof {
        lemma_bit_basics();
    }
    let m = passer_mask(side, s) & bb(File(s % 8));
    m
}

/// The forward squares of the adjacent files only.
pub fn outpost_mask(side: Color, s: Square) -> (m: Bitboard)
    requires
        square_ok(s),
    ensures
        forall|j: u64| j < 64 ==> #[trigger] bit64(m, j) == outpost_pred(side, s, j),
{
    proof {
        lemma_bit_basics();
    }
    let m = passer_mask(side, s) & !bb(File(s % 8));
    m
}

/// All squares of the same shade as `s`.
pub fn squares_of_color(s: Square) -> (m: Bitboard)
    requires
        square_ok(s),
    ensures
        forall|j: u64| j < 64 ==> #[trigger] bit64(m, j) == same_shade_pred(s, j),
{
    proof {
        lemma_bit_basics();
    }
    let mut m: u64 = 0;
    let mut t: u8 = 0;
    while t < 64
        invariant
            t <= 64,
            square_ok(s),
            forall|j: u64| j < 64 ==> (#[trigger] bit64(m, j) <==> (j < t && same_shade_pred(
                s,
                j,
            ))),
        decreases 64 - t,
    {
        proof {
            lemma_bit_basics();
        }
        if (t / 8 + t % 8) % 2 == (s / 8 + s % 8) % 2 {
            m = m | (1u64 << (t as u64));
        }
        t = t + 1;
    }
    m
}

/// The king attack set of `s`.
pub fn king_attacks(s: Square) -> (m: Bitboard)
    requires
        square_ok(s),
    ensures
        forall|j: u64| j < 64 ==> #[trigger] bit64(m, j) == king_att_pred(s, j),
{
    proof {
        lemma_bit_basics();
    }
    let mut m: u64 = 0;
    let mut t: u8 = 0;
    while t < 64
        invariant
            t <= 64,
            square_ok(s),
            forall|j: u64| j < 64 ==> (#[trigger] bit64(m, j) <==> (j < t && king_att_pred(s, j))),
        decreases 64 - t,
    {
        proof {
            lemma_bit_basics();
        }
        if t != s && dist(s, t) == 1 {
            m = m | (1u64 << (t as u64));
        }
        t = t + 1;
    }
    m
}

/// The knight attack set of `s`.
pub fn knight_attacks(s: Square) -> (m: Bitboard)
    requires
        square_ok(s),
    ensures
        forall|j: u64| j < 64 ==> #[trigger] bit64(m, j) == knight_att_pred(s, j),
{
    proof {
        lemma_bit_basics();
    }
    let mut m: u64 = 0;
    let mut t: u8 = 0;
    while t < 64
        invariant
            t <= 64,
            square_ok(s),
            forall|j: u64| j < 64 ==> (#[trigger] bit64(m, j) <==> (j < t && knight_att_pred(
                s,
                j,
            ))),
        decreases 64 - t,
    {
        proof {
            lemma_bit_basics();
        }
        let r1 = s / 8;
        let r2 = t / 8;
        let f1 = s % 8;
        let f2 = t % 8;
        let rd = if r1 >= r2 {
            r1 - r2
        } else {
            r2 - r1
        };
        let fd = if f1 >= f2 {
            f1 - f2
        } else {
            f2 - f1
        };
        if rd == 1 && fd == 2 || rd == 2 && fd == 1 {
            m = m | (1u64 << (t as u64));
        }
        t = t + 1;
    }
    m
}

/// The squares attacked by a white pawn on `s`.
pub fn white_pawn_attacks(s: Square) -> (m: Bitboard)
    requires
        square_ok(s),
    ensures
        forall|j: u64| j < 64 ==> #[trigger] bit64(m, j) == pawn_att_pred(Color::White, s, j),
{
    pawn_attacks(Color::White, s)
}

/// The squares attacked by a black pawn on `s`.
pub fn black_pawn_attacks(s: Square) -> (m: Bitboard)
    requires
        square_ok(s),
    ensures
        forall|j: u64| j < 64 ==> #[trigger] bit64(m, j) == pawn_att_pred(Color::Black, s, j),
{
    pawn_attacks(Color::Black, s)
}

/// The squares attacked by a pawn of `side` on `s`.
pub fn pawn_attacks(side: Color, s: Square) -> (m: Bitboard)
    requires
        square_ok(s),
    ensures
        forall|j: u64| j < 64 ==> #[trigger] bit64(m, j) == pawn_att_pred(side, s, j),
{
    proof {
        lemma_bit_basics();
    }
    let mut m: u64 = 0;
    let mut t: u8 = 0;
    while t < 64
        invariant
            t <= 64,
            square_ok(s),
            forall|j: u64| j < 64 ==> (#[trigger] bit64(m, j) <==> (j < t && pawn_att_pred(
                side,
                s,
                j,
            ))),
        decreases 64 - t,
    {
        proof {
            lemma_bit_basics();
        }
        let tf = t % 8;
        let sf = s % 8;
        let forward = match side {
            Color::White => t / 8 == s / 8 + 1,
            Color::Black => t / 8 + 1 == s / 8,
        };
        if (tf == sf + 1 || tf + 1 == sf) && forward {
            m = m | (1u64 << (t as u64));
        }
        t = t + 1;
    }
    m
}

/// Where each bit lands when a whole bitboard is shifted by `d`: a push
/// moves every square one rank, a diagonal shift also moves one file and
/// drops the squares that would wrap around a board edge.
pub open spec fn shift_pred(b: u64, d: i8, j: u64) -> bool {
    if d == 8 {
        j >= 8 && bit64(b, (j - 8) as u64)
    } else if d == 16 {
        j >= 16 && bit64(b, (j - 16) as u64)
    } else if d == -8 {
        j < 56 && bit64(b, (j + 8) as u64)
    } else if d == -16 {
        j < 48 && bit64(b, (j + 16) as u64)
    } else if d == 9 {
        j >= 9 && j % 8 != 0 && bit64(b, (j - 9) as u64)
    } else if d == 7 {
        j >= 7 && j % 8 != 7 && bit64(b, (j - 7) as u64)
    } else if d == -7 {
        j < 57 && j % 8 != 0 && bit64(b, (j + 7) as u64)
    } else if d == -9 {
        j < 55 && j % 8 != 7 && bit64(b, (j + 9) as u64)
    } else {
        false
    }
}

proof fn lemma_shift_bits()
    by (bit_vector)
    ensures
        forall|b: u64, j: u64| j < 64 ==> (#[trigger] bit64(b << 8, j) <==> (j >= 8 && bit64(
            b,
            vstd::prelude::sub(j, 8),
        ))),
        forall|b: u64, j: u64| j < 64 ==> (#[trigger] bit64(b << 16, j) <==> (j >= 16 && bit64(
            b,
            vstd::prelude::sub(j, 16),
        ))),
        forall|b: u64, j: u64| j < 64 ==> (#[trigger] bit64(b >> 8, j) <==> (j < 56 && bit64(
            b,
            vstd::prelude::add(j, 8),
        ))),
        forall|b: u64, j: u64| j < 64 ==> (#[trigger] bit64(b >> 16, j) <==> (j < 48 && bit64(
            b,
            vstd::prelude::add(j, 16),
        ))),
        forall|b: u64, j: u64| j < 64 ==> (#[trigger] bit64(
            (b & 0x7f7f7f7f7f7f7f7fu64) << 9,
            j,
        ) <==> (j >= 9 && j % 8 != 0 && bit64(b, vstd::prelude::sub(j, 9)))),
        forall|b: u64, j: u64| j < 64 ==> (#[trigger] bit64(
            (b & 0xfefefefefefefefeu64) << 7,
            j,
        ) <==> (j >= 7 && j % 8 != 7 && bit64(b, vstd::prelude::sub(j, 7)))),
        forall|b: u64, j: u64| j < 64 ==> (#[trigger] bit64(
            (b & 0x7f7f7f7f7f7f7f7fu64) >> 7,
            j,
        ) <==> (j < 57 && j % 8 != 0 && bit64(b, vstd::prelude::add(j, 7)))),
        forall|b: u64, j: u64| j < 64 ==> (#[trigger] bit64(
            (b & 0xfefefefefefefefeu64) >> 9,
            j,
        ) <==> (j < 55 && j % 8 != 7 && bit64(b, vstd::prelude::add(j, 9)))),
{
}

/// Shifts a whole bitboard one step in direction `d` (a single or double
/// push, or one of the four diagonals), dropping squares that would wrap
/// around a board edge.
pub fn shift(b: Bitboard, d: Delta) -> (m: Bitboard)
    requires
        d == 8 || d == 16 || d == -8 || d == -16 || d == 9 || d == 7 || d == -7 || d == -9,
    ensures
        forall|j: u64| j < 64 ==> #[trigger] bit64(m, j) == shift_pred(b, d, j),
{
    proof {
        lemma_shift_bits();
    }
    if d == 8 {
        b << 8u64
    } else if d == 16 {
        b << 16u64
    } else if d == -8 {
        b >> 8u64
    } else if d == -16 {
        b >> 16u64
    } else if d == 9 {
        (b & 0x7f7f7f7f7f7f7f7fu64) << 9u64
    } else if d == 7 {
        (b & 0xfefefefefefefefeu64) << 7u64
    } else if d == -7 {
        (b & 0x7f7f7f7f7f7f7f7fu64) >> 7u64
    } else {
        (b & 0xfefefefefefefefeu64) >> 9u64
    }
}

/// The king shield of `c`'s king on `s`: the king ring joined with the
/// ring of the square one pawn push ahead, when that push stays on the
/// board.
pub open spec fn king_shield_pred(c: Color, s: Square, t: u64) -> bool {
    king_att_pred(s, t) || (shield_push_ok(c, s) && king_att_pred(shield_push_sq(c, s), t))
}

pub open spec fn shield_push_ok(c: Color, s: Square) -> bool {
    if c == Color::White {
        rank_of(s) < 7
    } else {
        rank_of(s) > 0
    }
}

pub open spec fn shield_push_sq(c: Color, s: Square) -> Square {
    if c == Color::White {
        (s + 8) as u8
    } else {
        (s - 8) as u8
    }
}

/// The far half of the shield: the shield with the king ring and the king
/// square toggled out.
pub open spec fn king_far_shield_pred(c: Color, s: Square, t: u64) -> bool {
    ((king_shield_pred(c, s, t) != king_att_pred(s, t)) != (t == s))
}

/// The far shield pulled back one rank toward the king.
pub open spec fn king_near_shield_pred(c: Color, s: Square, t: u64) -> bool {
    if c == Color::White {
        t < 56 && king_far_shield_pred(c, s, (t + 8) as u64)
    } else {
        t >= 8 && king_far_shield_pred(c, s, (t - 8) as u64)
    }
}

/// The king halo: the king ring joined with the rings of the four
/// orthogonally adjacent squares.
pub open spec fn king_halo_pred(s: Square, t: u64) -> bool {
    king_att_pred(s, t) || (rank_of(s) > 0 && king_att_pred((s - 8) as u8, t)) || (rank_of(s) < 7
        && king_att_pred((s + 8) as u8, t)) || (file_of(s) > 0 && king_att_pred((s - 1) as u8, t))
        || (file_of(s) < 7 && king_att_pred((s + 1) as u8, t))
}

/// The pawn-shield squares of `c`'s king on `s`.
pub fn king_shield(us: Color, s: Square) -> (m: Bitboard)
    requires
        square_ok(s),
    ensures
        forall|j: u64| j < 64 ==> #[trigger] bit64(m, j) == king_shield_pred(us, s, j),
{
    proof {
        lemma_bit_basics();
    }
    let base = king_attacks(s);
    let push_ok = match us {
        Color::White => s / 8 < 7,
        Color::Black => s / 8 > 0,
    };
    if push_ok {
        let s2 = match us {
            Color::White => s + 8,
            Color::Black => s - 8,
        };
        base | king_attacks(s2)
    } else {
        base
    }
}

/// The pawn-shield squares pulled back one rank toward the king.
pub fn king_near_shield(us: Color, s: Square) -> (m: Bitboard)
    requires
        square_ok(s),
    ensures
        forall|j: u64| j < 64 ==> #[trigger] bit64(m, j) == king_near_shield_pred(us, s, j),
{
    proof {
        lemma_bit_basics();
    }
    let shield = king_shield(us, s);
    let far = shield ^ king_attacks(s) ^ (1u64 << (s as u64));
    let pull: Delta = match us {
        Color::White => -8,
        Color::Black => 8,
    };
    let m = shift(far, pull);
    proof {
        assert forall|j: u64| j < 64 implies #[trigger] bit64(m, j) == king_near_shield_pred(
            us,
            s,
            j,
        ) by {
            lemma_bit_basics();
        }
    }
    m
}

/// The king ring widened by the rings of the orthogonal neighbors.
pub fn king_halo(s: Square) -> (m: Bitboard)
    requires
        square_ok(s),
    ensures
        forall|j: u64| j < 64 ==> #[trigger] bit64(m, j) == king_halo_pred(s, j),
{
    proof {
        lemma_bit_basics();
    }
    let mut m = king_attacks(s);
    if s / 8 > 0 {
        m = m | king_attacks(s - 8);
    }
    if s / 8 < 7 {
        m = m | king_attacks(s + 8);
    }
    if s % 8 > 0 {
        m = m | king_attacks(s - 1);
    }
    if s % 8 < 7 {
        m = m | king_attacks(s + 1);
    }
    m
}

/// The forward squares split by file: the outpost mask and the in-front
/// mask partition the passed-pawn mask, and the in-front mask never leaves
/// the pawn's own file.
pub proof fn lemma_passer_shape(side: Color, s: Square, t: u64)
    requires
        square_ok(s),
        t < 64,
    ensures
        (outpost_pred(side, s, t) || in_front_pred(side, s, t)) == passer_pred(side, s, t),
        !(in_front_pred(side, s, t) && neighbor_file_pred(file_of(s), t)),
{
}

/// Chebyshev (king-move) distance between two squares.
pub fn dist(s1: Square, s2: Square) -> (d: u8)
    requires
        square_ok(s1),
        square_ok(s2),
    ensures
        d == chebyshev(s1, s2),
{
    let r1 = s1 / 8;
    let r2 = s2 / 8;
    let f1 = s1 % 8;
    let f2 = s2 % 8;
    let rd = if r1 >= r2 {
        r1 - r2
    } else {
        r2 - r1
    };
    let fd = if f1 >= f2 {
        f1 - f2
    } else {
        f2 - f1
    };
    if rd >= fd {
        rd
    } else {
        fd
    }
}

} // verus!
