//! Typed identifiers and arithmetic for the 64-square board: squares,
//! files, ranks, colors, piece types and direction deltas.

use vstd::prelude::*;

verus! {

/// A square index: 0..63 are the board squares (a1 = 0, h8 = 63);
/// `NO_SQUARE` is the sentinel for absence.
pub type Square = u8;

pub const NO_SQUARE: Square = 64;

/// A signed direction value added to a square index.
pub type Delta = i8;

pub const NORTH: Delta = 8;
pub const SOUTH: Delta = -8;
pub const EAST: Delta = 1;
pub const WEST: Delta = -1;
pub const NORTHEAST: Delta = 9;
pub const NORTHWEST: Delta = 7;
pub const SOUTHEAST: Delta = -7;
pub const SOUTHWEST: Delta = -9;

/// Rank of a square, as a mathematical value.
pub open spec fn rank_of(s: Square) -> u8 {
    s / 8
}

/// File of a square, as a mathematical value.
pub open spec fn file_of(s: Square) -> u8 {
    s % 8
}

pub open spec fn square_ok(s: Square) -> bool {
    s < 64
}

/// Chebyshev (king-move) distance between two squares.
pub open spec fn chebyshev(s1: Square, s2: Square) -> int {
    let rd = if rank_of(s1) >= rank_of(s2) {
        rank_of(s1) - rank_of(s2)
    } else {
        rank_of(s2) - rank_of(s1)
    };
    let fd = if file_of(s1) >= file_of(s2) {
        file_of(s1) - file_of(s2)
    } else {
        file_of(s2) - file_of(s1)
    };
    if rd >= fd {
        rd
    } else {
        fd
    }
}

/// A rank identifier: 0..7 from the white side; 8 is the sentinel.
#[derive(Clone, Copy, PartialEq, Eq, Structural, Debug)]
pub struct Rank(pub u8);

/// A file identifier: 0 = a-file .. 7 = h-file; 8 is the sentinel.
#[derive(Clone, Copy, PartialEq, Eq, Structural, Debug)]
pub struct File(pub u8);

#[derive(Clone, Copy, PartialEq, Eq, Structural, Debug)]
pub enum Color {
    White,
    Black,
}

impl Color {
    pub open spec fn spec_index(self) -> int {
        match self {
            Color::White => 0,
            Color::Black => 1,
        }
    }

    pub fn index(self) -> (i: usize)
        ensures
            i == self.spec_index(),
    {
        match self {
            Color::White => 0,
            Color::Black => 1,
        }
    }

    pub fn flip(self) -> (c: Color)
        ensures
            c == self.spec_flip(),
    {
        match self {
            Color::White => Color::Black,
            Color::Black => Color::White,
        }
    }

    pub open spec fn spec_flip(self) -> Color {
        match self {
            Color::White => Color::Black,
            Color::Black => Color::White,
        }
    }
}

#[derive(Clone, Copy, PartialEq, Eq, Structural, Debug)]
pub enum PieceType {
    NoPieceType,
    Pawn,
    Knight,
    Bishop,
    Rook,
    Queen,
    King,
}

impl PieceType {
    pub open spec fn spec_index(self) -> int {
        match self {
            PieceType::NoPieceType => 0,
            PieceType::Pawn => 1,
            PieceType::Knight => 2,
            PieceType::Bishop => 3,
            PieceType::Rook => 4,
            PieceType::Queen => 5,
            PieceType::King => 6,
        }
    }

    pub fn index(self) -> (i: usize)
        ensures
            i == self.spec_index(),
            i < 7,
    {
        match self {
            PieceType::NoPieceType => 0,
            PieceType::Pawn => 1,
            PieceType::Knight => 2,
            PieceType::Bishop => 3,
            PieceType::Rook => 4,
            PieceType::Queen => 5,
            PieceType::King => 6,
        }
    }

    pub fn from_index(i: u8) -> (pt: PieceType)
        requires
            1 <= i <= 6,
        ensures
            pt.spec_index() == i,
    {
        if i == 1 {
            PieceType::Pawn
        } else if i == 2 {
            PieceType::Knight
        } else if i == 3 {
            PieceType::Bishop
        } else if i == 4 {
            PieceType::Rook
        } else if i == 5 {
            PieceType::Queen
        } else {
            PieceType::King
        }
    }
}

/// A piece code: 0 is the empty square; `color * 8 + piece_type` otherwise,
/// so white pieces are 1..6 and black pieces are 9..14.
pub type Piece = u8;

pub const NO_PIECE: Piece = 0;

pub open spec fn piece_ok(p: Piece) -> bool {
    1 <= p % 8 <= 6 && p < 16
}

pub open spec fn piece_type_of(p: Piece) -> u8 {
    p % 8
}

pub open spec fn piece_color_of(p: Piece) -> int {
    (p / 8) as int
}

pub fn make_piece(c: Color, pt: PieceType) -> (p: Piece)
    requires
        pt != PieceType::NoPieceType,
    ensures
        piece_ok(p),
        piece_type_of(p) == pt.spec_index(),
        piece_color_of(p) == c.spec_index(),
{
    let base: u8 = match c {
        Color::White => 0,
        Color::Black => 8,
    };
    let t: u8 = match pt {
        PieceType::NoPieceType => 1,
        PieceType::Pawn => 1,
        PieceType::Knight => 2,
        PieceType::Bishop => 3,
        PieceType::Rook => 4,
        PieceType::Queen => 5,
        PieceType::King => 6,
    };
    base + t
}

pub fn piece_type(p: Piece) -> (pt: PieceType)
    requires
        piece_ok(p),
    ensures
        pt.spec_index() == piece_type_of(p),
        pt != PieceType::NoPieceType,
{
    PieceType::from_index(p % 8)
}

pub fn piece_color(p: Piece) -> (c: Color)
    requires
        piece_ok(p),
    ensures
        c.spec_index() == piece_color_of(p),
{
    if p < 8 {
        Color::White
    } else {
        Color::Black
    }
}

/// Builds a square from its file and rank.
pub fn sq(f: File, r: Rank) -> (s: Square)
    requires
        f.0 < 8,
        r.0 < 8,
    ensures
        square_ok(s),
        rank_of(s) == r.0,
        file_of(s) == f.0,
{
    r.0 * 8 + f.0
}

pub fn rank(s: Square) -> (r: Rank)
    requires
        square_ok(s),
    ensures
        r.0 == rank_of(s),
        r.0 < 8,
{
    Rank(s / 8)
}

pub fn file(s: Square) -> (f: File)
    requires
        square_ok(s),
    ensures
        f.0 == file_of(s),
        f.0 < 8,
{
    File(s % 8)
}

/// The same square seen from `c`'s point of view: for black the board is
/// flipped vertically, so relative rank 0 is always the back rank of `c`.
pub fn relative_square(c: Color, s: Square) -> (t: Square)
    requires
        square_ok(s),
    ensures
        square_ok(t),
        c == Color::White ==> t == s,
        c == Color::Black ==> rank_of(t) == 7 - rank_of(s) && file_of(t) == file_of(s),
{
    match c {
        Color::White => s,
        Color::Black => {
            let t = s ^ 56;
            proof {
                assert(t < 64 && t / 8 == 7 - s / 8 && t % 8 == s % 8) by (bit_vector)
                    requires
                        s < 64 && t == s ^ 56,
                ;
            }
            t
        },
    }
}

impl Rank {
    pub fn index(self) -> (i: usize)
        ensures
            i == self.0,
    {
        self.0 as usize
    }

    /// The rank as seen from `c`'s side: rank 0 is `c`'s back rank.
    pub fn relative_to(self, c: Color) -> (r: Rank)
        requires
            self.0 < 8,
        ensures
            r.0 < 8,
            c == Color::White ==> r.0 == self.0,
            c == Color::Black ==> r.0 == 7 - self.0,
    {
        match c {
            Color::White => self,
            Color::Black => Rank(7 - self.0),
        }
    }
}

impl File {
    pub fn index(self) -> (i: usize)
        ensures
            i == self.0,
    {
        self.0 as usize
    }
}

/// The pawn-push delta for `c`.
pub fn pawn_push(c: Color) -> (d: Delta)
    ensures
        c == Color::White ==> d == NORTH,
        c == Color::Black ==> d == SOUTH,
{
    match c {
        Color::White => NORTH,
        Color::Black => SOUTH,
    }
}

/// Adds a delta to a square, returning `None` when the sum leaves the
/// 0..63 index range. A wrap around a board edge may still yield a square;
/// callers reject those with a distance check.
pub fn shift_sq(s: Square, d: Delta) -> (t: Option<Square>)
    requires
        square_ok(s),
    ensures
        match t {
            Some(t2) => square_ok(t2) && t2 == s + d,
            None => s + d < 0 || s + d >= 64,
        },
{
    let v: i16 = s as i16 + d as i16;
    if 0 <= v && v < 64 {
        Some(v as u8)
    } else {
        None
    }
}

} // verus!
