//! The position: piece placement, side to move, castling rights,
//! en-passant square, move counters, a Zobrist hash with the history of
//! hashes for repetition detection, and the attack queries the search
//! consumes (checkers, static exchange evaluation, attack data).

use vstd::prelude::*;

use crate::bitboard::{bit64, king_att_pred, knight_att_pred, lemma_and_nonzero, lemma_bit_basics, lsb, pawn_att_pred, pop_square, Bitboard};
use crate::sliders::{bishop_att_pred, lemma_bishop_att_sym, lemma_rook_att_sym, queen_att_pred, rook_att_pred};
use crate::board::{piece_ok, Color, PieceType, Square};
use crate::magics::Tables;
use crate::movement::{
    move_capture, move_from, move_is_castle, move_is_ep, move_piece, move_promote, move_to, Move,
    NO_MOVE, NULL_MOVE,
};
use crate::score::Score;

verus! {

/// The standard starting position.
pub const START_FEN: &'static str = "rnbqkbnr/pppppppp/8/8/8/8/PPPPPPPP/RNBQKBNR w KQkq - 0 1";

pub struct Position {
    /// Piece code on each square; 0 when empty.
    pub board: Vec<u8>,
    /// One bitboard per piece code.
    pub bb_piece: Vec<u64>,
    /// Occupancy of each color.
    pub bb_color: Vec<u64>,
    pub stm: Color,
    /// Castling rights: 1 = white king side, 2 = white queen side,
    /// 4 = black king side, 8 = black queen side.
    pub castling: u8,
    /// En-passant target square; 64 when absent.
    pub ep: u8,
    pub halfmove: u32,
    pub fullmove: u32,
    pub hash: u64,
    /// Hashes of the positions before each move played, oldest first.
    pub hash_history: Vec<u64>,
    pub last_mv: Move,
}

/// A snapshot sufficient to restore a position after do_move/undo_move.
pub struct UndoState {
    pub saved: Position,
}

impl Position {
    pub open spec fn wf(self) -> bool {
        &&& self.board.len() == 64
        &&& self.bb_piece.len() == 16
        &&& self.bb_color.len() == 2
        &&& self.ep <= 64
        &&& forall|i: int|
            0 <= i < 64 ==> (#[trigger] self.board[i] == 0 || piece_ok(self.board[i]))
    }

    /// Two positions describe the same state.
    pub open spec fn eqv(self, o: Position) -> bool {
        &&& self.board@ == o.board@
        &&& self.bb_piece@ == o.bb_piece@
        &&& self.bb_color@ == o.bb_color@
        &&& self.stm == o.stm
        &&& self.castling == o.castling
        &&& self.ep == o.ep
        &&& self.halfmove == o.halfmove
        &&& self.fullmove == o.fullmove
        &&& self.hash == o.hash
        &&& self.hash_history@ == o.hash_history@
        &&& self.last_mv == o.last_mv
    }

    /// The code of a piece of `c` and type index `pt`.
    pub open spec fn spec_code(c: Color, pt: int) -> int {
        c.spec_index() * 8 + pt
    }

    /// A piece of `by` stands on `a` and attacks `s` under occupancy
    /// `occ`. Kings count as attackers here.
    pub open spec fn attacker_at(self, a: u64, s: Square, by: Color, occ: u64) -> bool {
        self.checker_at(a, s, by, occ) || (bit64(self.bb_piece[Self::spec_code(by, 6)], a)
            && king_att_pred(a as u8, s as u64))
    }

    /// A piece of `by` other than the king stands on `a` and attacks
    /// `s` under occupancy `occ`: the pieces that can give check.
    pub open spec fn checker_at(self, a: u64, s: Square, by: Color, occ: u64) -> bool {
        ||| (bit64(self.bb_piece[Self::spec_code(by, 1)], a) && pawn_att_pred(by, a as u8, s as u64))
        ||| (bit64(self.bb_piece[Self::spec_code(by, 2)], a) && knight_att_pred(a as u8, s as u64))
        ||| (bit64(self.bb_piece[Self::spec_code(by, 3)], a) && bishop_att_pred(a as u8, occ, s as u64))
        ||| (bit64(self.bb_piece[Self::spec_code(by, 4)], a) && rook_att_pred(a as u8, occ, s as u64))
        ||| (bit64(self.bb_piece[Self::spec_code(by, 5)], a) && queen_att_pred(a as u8, occ, s as u64))
    }

    /// Some piece of `by` attacks square `s` under occupancy `occ`.
    pub open spec fn attacked_spec(self, s: Square, by: Color, occ: u64) -> bool {
        exists|a: u64| a < 64 && #[trigger] self.attacker_at(a, s, by, occ)
    }

    pub fn us(&self) -> (c: Color)
        ensures
            c == self.stm,
    {
        self.stm
    }

    pub fn them(&self) -> (c: Color)
        ensures
            c == self.stm.spec_flip(),
    {
        self.stm.flip()
    }

    pub fn occupied(&self) -> (b: Bitboard)
        requires
            self.wf(),
        ensures
            b == self.bb_color[0] | self.bb_color[1],
    {
        self.bb_color[0] | self.bb_color[1]
    }

    pub fn color_bb(&self, c: Color) -> (b: Bitboard)
        requires
            self.wf(),
    {
        self.bb_color[c.index()]
    }

    /// The pieces of `c` of type `pt`.
    pub fn pieces(&self, c: Color, pt: PieceType) -> (b: Bitboard)
        requires
            self.wf(),
            pt != PieceType::NoPieceType,
        ensures
            b == self.bb_piece[Self::spec_code(c, pt.spec_index())],
    {
        let code = crate::board::make_piece(c, pt);
        assert(code == Self::spec_code(c, pt.spec_index()));
        self.bb_piece[code as usize]
    }

    /// The square of `c`'s king in specification form: only meaningful
    /// when the king is on the board.
    pub open spec fn king_sq_spec(self, c: Color) -> u8 {
        vstd::std_specs::bits::u64_trailing_zeros(self.bb_piece[Self::spec_code(c, 6)]) as u8
    }

    /// The square of `c`'s king, or 64 when no king is on the board.
    pub fn king_sq(&self, c: Color) -> (s: u8)
        requires
            self.wf(),
        ensures
            s <= 64,
            self.bb_piece[Self::spec_code(c, 6)] != 0 ==> s == self.king_sq_spec(c) && s < 64,
            self.bb_piece[Self::spec_code(c, 6)] == 0 ==> s == 64,
    {
        let kb = self.pieces(c, PieceType::King);
        if kb == 0 {
            64
        } else {
            lsb(kb)
        }
    }

    pub fn last_move(&self) -> (m: Move)
        ensures
            m == self.last_mv,
    {
        self.last_mv
    }

    /// Whether `by` attacks square `s` under occupancy `occ`: exactly
    /// when some piece of `by` has `s` in its attack set.
    pub fn attacked(&self, tb: &Tables, s: u8, by: Color, occ: Bitboard) -> (r: bool)
        requires
            self.wf(),
            tb.wf(),
            s < 64,
        ensures
            r == self.attacked_spec(s, by, occ),
    {
        proof {
            lemma_bit_basics();
        }
        let victim_side = by.flip();
        let pawn_from = tb.pawn(victim_side, s);
        let pawns = self.pieces(by, PieceType::Pawn);
        let knight_from = tb.knight(s);
        let knights = self.pieces(by, PieceType::Knight);
        let king_from = tb.king(s);
        let kings = self.pieces(by, PieceType::King);
        let batts = tb.magic_bishop_attacks(s, occ);
        let ratts = tb.magic_rook_attacks(s, occ);
        let bishops = self.pieces(by, PieceType::Bishop);
        let rooks = self.pieces(by, PieceType::Rook);
        let queens = self.pieces(by, PieceType::Queen);
        let r = pawn_from & pawns != 0 || knight_from & knights != 0 || king_from & kings != 0
            || batts & bishops != 0 || batts & queens != 0 || ratts & rooks != 0 || ratts & queens
            != 0;
        proof {
            lemma_and_nonzero(pawn_from, pawns);
            lemma_and_nonzero(knight_from, knights);
            lemma_and_nonzero(king_from, kings);
            lemma_and_nonzero(batts, bishops);
            lemma_and_nonzero(batts, queens);
            lemma_and_nonzero(ratts, rooks);
            lemma_and_nonzero(ratts, queens);
            if r {
                let j = choose|j: u64|
                    j < 64 && ((bit64(pawn_from, j) && bit64(pawns, j)) || (bit64(knight_from, j)
                        && bit64(knights, j)) || (bit64(king_from, j) && bit64(kings, j)) || (
                    bit64(batts, j) && bit64(bishops, j)) || (bit64(batts, j) && bit64(queens, j))
                        || (bit64(ratts, j) && bit64(rooks, j)) || (bit64(ratts, j) && bit64(
                        queens,
                        j,
                    )));
                if bit64(batts, j) || bit64(ratts, j) {
                    lemma_bishop_att_sym(s, j as u8, occ);
                    lemma_rook_att_sym(s, j as u8, occ);
                }
                assert(self.attacker_at(j, s, by, occ));
            }
            if self.attacked_spec(s, by, occ) {
                let a = choose|a: u64| a < 64 && #[trigger] self.attacker_at(a, s, by, occ);
                lemma_bishop_att_sym(s, a as u8, occ);
                lemma_rook_att_sym(s, a as u8, occ);
                assert(r);
            }
        }
        r
    }

    /// All attackers of either color of square `s` under occupancy
    /// `occ`, kings included: exactly the pieces whose attack set holds
    /// `s`.
    pub fn attackers_of(&self, tb: &Tables, s: u8, occ: Bitboard) -> (b: Bitboard)
        requires
            self.wf(),
            tb.wf(),
            s < 64,
        ensures
            forall|t: u64|
                t < 64 ==> #[trigger] bit64(b, t) == (self.attacker_at(t, s, Color::White, occ)
                    || self.attacker_at(t, s, Color::Black, occ)),
    {
        proof {
            lemma_bit_basics();
        }
        let wp = tb.pawn(Color::Black, s) & self.pieces(Color::White, PieceType::Pawn);
        let bp = tb.pawn(Color::White, s) & self.pieces(Color::Black, PieceType::Pawn);
        let kn = tb.knight(s) & (self.pieces(Color::White, PieceType::Knight) | self.pieces(
            Color::Black,
            PieceType::Knight,
        ));
        let kg = tb.king(s) & (self.pieces(Color::White, PieceType::King) | self.pieces(
            Color::Black,
            PieceType::King,
        ));
        let diag = self.pieces(Color::White, PieceType::Bishop) | self.pieces(
            Color::Black,
            PieceType::Bishop,
        ) | self.pieces(Color::White, PieceType::Queen) | self.pieces(
            Color::Black,
            PieceType::Queen,
        );
        let ortho = self.pieces(Color::White, PieceType::Rook) | self.pieces(
            Color::Black,
            PieceType::Rook,
        ) | self.pieces(Color::White, PieceType::Queen) | self.pieces(
            Color::Black,
            PieceType::Queen,
        );
        let b = wp | bp | kn | kg | (tb.magic_bishop_attacks(s, occ) & diag) | (
        tb.magic_rook_attacks(s, occ) & ortho);
        proof {
            assert forall|t: u64| t < 64 implies #[trigger] bit64(b, t) == (self.attacker_at(
                t,
                s,
                Color::White,
                occ,
            ) || self.attacker_at(t, s, Color::Black, occ)) by {
                lemma_bishop_att_sym(s, t as u8, occ);
                lemma_rook_att_sym(s, t as u8, occ);
            }
        }
        b
    }

    /// The pieces of the opponent currently giving check: exactly the
    /// opposing pawns, knights and sliders whose attack set holds the
    /// king of the side to move.
    pub fn checkers(&self, tb: &Tables) -> (b: Bitboard)
        requires
            self.wf(),
            tb.wf(),
        ensures
            self.bb_piece[Self::spec_code(self.stm, 6)] == 0 ==> b == 0,
            self.bb_piece[Self::spec_code(self.stm, 6)] != 0 ==> forall|t: u64|
                t < 64 ==> #[trigger] bit64(b, t) == self.checker_at(
                    t,
                    self.king_sq_spec(self.stm),
                    self.stm.spec_flip(),
                    self.bb_color[0] | self.bb_color[1],
                ),
    {
        proof {
            lemma_bit_basics();
        }
        let ks = self.king_sq(self.stm);
        if ks >= 64 {
            return 0;
        }
        let occ = self.occupied();
        let them = self.stm.flip();
        let pawn_from = tb.pawn(self.stm, ks);
        let pawns = self.pieces(them, PieceType::Pawn);
        let knight_from = tb.knight(ks);
        let knights = self.pieces(them, PieceType::Knight);
        let batts = tb.magic_bishop_attacks(ks, occ);
        let ratts = tb.magic_rook_attacks(ks, occ);
        let bishops = self.pieces(them, PieceType::Bishop);
        let rooks = self.pieces(them, PieceType::Rook);
        let queens = self.pieces(them, PieceType::Queen);
        let b = (pawn_from & pawns) | (knight_from & knights) | (batts & (bishops | queens)) | (
        ratts & (rooks | queens));
        proof {
            assert forall|t: u64| t < 64 implies #[trigger] bit64(b, t) == self.checker_at(
                t,
                ks,
                them,
                occ,
            ) by {
                lemma_bishop_att_sym(ks, t as u8, occ);
                lemma_rook_att_sym(ks, t as u8, occ);
            }
        }
        b
    }

    /// The material of `c` apart from pawns, in centipawns.
    pub fn non_pawn_material(&self, c: Color) -> (v: Score)
        requires
            self.wf(),
        ensures
            0 <= v <= 24000,
    {
        let mut v: i32 = 0;
        let knights = count_bits(self.pieces(c, PieceType::Knight));
        let bishops = count_bits(self.pieces(c, PieceType::Bishop));
        let rooks = count_bits(self.pieces(c, PieceType::Rook));
        let queens = count_bits(self.pieces(c, PieceType::Queen));
        v = knights as i32 * 325 + bishops as i32 * 325 + rooks as i32 * 500 + queens as i32 * 975;
        if v > 24000 {
            v = 24000;
        }
        v
    }

    /// True when the fifty-move rule has run out or the same position
    /// already stands in the hash history: the draws the search must
    /// score as level.
    pub fn is_draw(&self) -> (r: bool)
        ensures
            r == self.is_draw_spec(),
    {
        if self.halfmove >= 100 {
            return true;
        }
        let mut i: usize = 0;
        while i < self.hash_history.len()
            invariant
                i <= self.hash_history@.len(),
                forall|j: int| 0 <= j < i ==> self.hash_history@[j] != self.hash,
            decreases self.hash_history@.len() - i,
        {
            if self.hash_history[i] == self.hash {
                return true;
            }
            i = i + 1;
        }
        false
    }

    pub open spec fn is_draw_spec(self) -> bool {
        self.halfmove >= 100 || exists|j: int|
            0 <= j < self.hash_history@.len() && self.hash_history@[j] == self.hash
    }

    /// Takes the snapshot that `undo_move` restores.
    pub fn undo_state(&self) -> (u: UndoState)
        requires
            self.wf(),
        ensures
            u.saved.eqv(*self),
            u.saved.wf(),
    {
        UndoState { saved: clone_position(self) }
    }

    /// Restores the position saved in `u`.
    pub fn undo_move(&mut self, u: UndoState)
        ensures
            final(self).eqv(u.saved),
            u.saved.wf() ==> final(self).wf(),
    {
        *self = u.saved;
    }

    /// Plays a null move: only the side to move, the en-passant right
    /// and the counters change.
    pub fn do_nullmove(&mut self)
        requires
            old(self).wf(),
        ensures
            final(self).wf(),
    {
        self.hash_history.push(self.hash);
        self.ep = 64;
        self.stm = self.stm.flip();
        self.last_mv = NULL_MOVE;
        let h = compute_hash(self);
        self.hash = h;
    }

    /// Plays `m` on the board: the capture is removed, the piece moves
    /// (promoting if asked, bringing the rook along when castling), the
    /// castling and en-passant rights and the move counters advance by
    /// their rules, and the old hash joins the repetition history. The
    /// caller keeps an `UndoState` from before the call to take the
    /// move back.
    #[verifier::rlimit(100)]
    pub fn do_move(&mut self, tb: &Tables, m: Move)
        requires
            old(self).wf(),
            tb.wf(),
        ensures
            final(self).wf(),
            final(self).stm == old(self).stm.spec_flip(),
            final(self).board@ == spec_board_after(old(self).board@, m, old(self).stm),
            final(self).castling == spec_rights_after(
                old(self).castling,
                crate::movement::move_from_spec(m) as u8,
                crate::movement::move_to_spec(m) as u8,
            ),
            final(self).ep == spec_ep_after(m),
            final(self).hash_history@ == old(self).hash_history@.push(old(self).hash),
            final(self).last_mv == m,
            final(self).halfmove == (if crate::movement::move_piece_spec(m) % 8 == 1
                || crate::movement::move_capture_spec(m) != 0 {
                0u32
            } else if old(self).halfmove < 0xffff_0000u32 {
                (old(self).halfmove + 1) as u32
            } else {
                old(self).halfmove
            }),
            final(self).fullmove == (if old(self).stm == Color::Black && old(self).fullmove
                < 0xffff_0000u32 {
                (old(self).fullmove + 1) as u32
            } else {
                old(self).fullmove
            }),
    {
        self.hash_history.push(self.hash);
        let f = move_from(m);
        let t = move_to(m);
        let p = move_piece(m);
        let cap = move_capture(m);
        let promote = move_promote(m);
        let us = self.stm;
        let usi = us.index();
        let themi = us.flip().index();
        // Remove any captured piece.
        if cap != 0 {
            let cap_sq: u8 = if move_is_ep(m) {
                if t >= 8 && t < 56 {
                    match us {
                        Color::White => t - 8,
                        Color::Black => t + 8,
                    }
                } else {
                    t
                }
            } else {
                t
            };
            self.board.set(cap_sq as usize, 0);
            let x = self.bb_piece[cap as usize];
            self.bb_piece.set(cap as usize, x & !(1u64 << (cap_sq as u64)));
        }
        // Move the piece, promoting if asked.
        self.board.set(f as usize, 0);
        let x = self.bb_piece[p as usize];
        self.bb_piece.set(p as usize, x & !(1u64 << (f as u64)));
        let placed: u8 = if promote >= 2 && promote <= 5 {
            let pt = crate::board::PieceType::from_index(promote);
            crate::board::make_piece(us, pt)
        } else {
            p
        };
        if placed < 16 && placed % 8 >= 1 && placed % 8 <= 6 {
            self.board.set(t as usize, placed);
            let x2 = self.bb_piece[placed as usize];
            self.bb_piece.set(placed as usize, x2 | (1u64 << (t as u64)));
        }
        // Castling moves the rook as well.
        if move_is_castle(m) {
            let rook = crate::board::make_piece(us, PieceType::Rook);
            let (rf, rt): (u8, u8) = if t == 6 {
                (7, 5)
            } else if t == 2 {
                (0, 3)
            } else if t == 62 {
                (63, 61)
            } else {
                (56, 59)
            };
            self.board.set(rf as usize, 0);
            let xr = self.bb_piece[rook as usize];
            self.bb_piece.set(rook as usize, xr & !(1u64 << (rf as u64)));
            self.board.set(rt as usize, rook);
            let xr2 = self.bb_piece[rook as usize];
            self.bb_piece.set(rook as usize, xr2 | (1u64 << (rt as u64)));
        }
        // Castling rights die with the king or rook leaving home, or a
        // capture on a rook's home square.
        let mut rights = self.castling;
        if f == 4 || t == 4 {
            rights = rights & !3u8;
        }
        if f == 60 || t == 60 {
            rights = rights & !12u8;
        }
        if f == 0 || t == 0 {
            rights = rights & !2u8;
        }
        if f == 7 || t == 7 {
            rights = rights & !1u8;
        }
        if f == 56 || t == 56 {
            rights = rights & !8u8;
        }
        if f == 63 || t == 63 {
            rights = rights & !4u8;
        }
        self.castling = rights;
        // En-passant right after a double pawn push.
        let is_pawn = p % 8 == 1;
        if is_pawn && (t == f + 16 || f == t + 16) {
            self.ep = if t > f {
                f + 8
            } else {
                t + 8
            };
        } else {
            self.ep = 64;
        }
        if is_pawn || cap != 0 {
            self.halfmove = 0;
        } else if self.halfmove < 0xffff_0000 {
            self.halfmove = self.halfmove + 1;
        }
        if self.stm == Color::Black && self.fullmove < 0xffff_0000 {
            self.fullmove = self.fullmove + 1;
        }
        self.stm = us.flip();
        self.last_mv = m;
        refresh_color_bb(self);
        let h = compute_hash(self);
        self.hash = h;
    }
}

/// The square a capture removes: the pushed-past square for en
/// passant, the target square otherwise.
pub open spec fn spec_capture_square(m: Move, us: Color) -> u8 {
    let t = crate::movement::move_to_spec(m) as u8;
    if crate::movement::move_is_ep_spec(m) {
        if 8 <= t < 56 {
            if us == Color::White {
                (t - 8) as u8
            } else {
                (t + 8) as u8
            }
        } else {
            t
        }
    } else {
        t
    }
}

/// The piece code that lands on the target square: the promotion piece
/// for a promotion, the moving piece otherwise.
pub open spec fn spec_placed_piece(m: Move, us: Color) -> u8 {
    let promote = crate::movement::move_promote_spec(m);
    if 2 <= promote <= 5 {
        (us.spec_index() * 8 + promote) as u8
    } else {
        crate::movement::move_piece_spec(m) as u8
    }
}

/// The board array after `m` is played by `us`: the captured piece
/// removed, the mover lifted from its origin, the placed piece set on
/// the target, and the rook moved for castling.
pub open spec fn spec_board_after(b0: Seq<u8>, m: Move, us: Color) -> Seq<u8> {
    let f = crate::movement::move_from_spec(m) as int;
    let t = crate::movement::move_to_spec(m) as int;
    let cap = crate::movement::move_capture_spec(m);
    let b1 = if cap != 0 {
        b0.update(spec_capture_square(m, us) as int, 0u8)
    } else {
        b0
    };
    let b2 = b1.update(f, 0u8);
    let placed = spec_placed_piece(m, us);
    let b3 = if placed < 16 && placed % 8 >= 1 && placed % 8 <= 6 {
        b2.update(t, placed)
    } else {
        b2
    };
    if crate::movement::move_is_castle_spec(m) {
        let rook = (us.spec_index() * 8 + 4) as u8;
        let rf: int = if t == 6 {
            7
        } else if t == 2 {
            0
        } else if t == 62 {
            63
        } else {
            56
        };
        let rt: int = if t == 6 {
            5
        } else if t == 2 {
            3
        } else if t == 62 {
            61
        } else {
            59
        };
        b3.update(rf, 0u8).update(rt, rook)
    } else {
        b3
    }
}

/// The castling rights left after a move between `f` and `t`: each
/// right dies when its king or rook square is touched.
pub open spec fn spec_rights_after(r0: u8, f: u8, t: u8) -> u8 {
    let r1 = if f == 4 || t == 4 {
        r0 & !3u8
    } else {
        r0
    };
    let r2 = if f == 60 || t == 60 {
        r1 & !12u8
    } else {
        r1
    };
    let r3 = if f == 0 || t == 0 {
        r2 & !2u8
    } else {
        r2
    };
    let r4 = if f == 7 || t == 7 {
        r3 & !1u8
    } else {
        r3
    };
    let r5 = if f == 56 || t == 56 {
        r4 & !8u8
    } else {
        r4
    };
    if f == 63 || t == 63 {
        r5 & !4u8
    } else {
        r5
    }
}

/// The en-passant right after a move: the passed square after a double
/// pawn push, absent otherwise.
pub open spec fn spec_ep_after(m: Move) -> u8 {
    let f = crate::movement::move_from_spec(m) as u8;
    let t = crate::movement::move_to_spec(m) as u8;
    let is_pawn = crate::movement::move_piece_spec(m) % 8 == 1;
    if is_pawn && (t == f + 16 || f == t + 16) {
        if t > f {
            (f + 8) as u8
        } else {
            (t + 8) as u8
        }
    } else {
        64
    }
}

/// The number of set bits.
pub fn count_bits(b0: Bitboard) -> (n: u8)
    ensures
        n <= 64,
{
    let mut b = b0;
    let mut n: u8 = 0;
    let mut iter: u8 = 0;
    while iter < 64
        invariant
            n <= iter <= 64,
        decreases 64 - iter,
    {
        if b == 0 {
            return n;
        }
        pop_square(&mut b);
        n = n + 1;
        iter = iter + 1;
    }
    n
}

fn copy_vec_u8(v: &Vec<u8>) -> (r: Vec<u8>)
    ensures
        r@ == v@,
{
    let mut r: Vec<u8> = Vec::new();
    let mut i: usize = 0;
    while i < v.len()
        invariant
            i <= v@.len(),
            r@ == v@.subrange(0, i as int),
        decreases v@.len() - i,
    {
        r.push(v[i]);
        i = i + 1;
    }
    proof {
        assert(r@ =~= v@);
    }
    r
}

fn copy_vec_u64(v: &Vec<u64>) -> (r: Vec<u64>)
    ensures
        r@ == v@,
{
    let mut r: Vec<u64> = Vec::new();
    let mut i: usize = 0;
    while i < v.len()
        invariant
            i <= v@.len(),
            r@ == v@.subrange(0, i as int),
        decreases v@.len() - i,
    {
        r.push(v[i]);
        i = i + 1;
    }
    proof {
        assert(r@ =~= v@);
    }
    r
}

/// A field-by-field copy of a position.
pub fn clone_position(p: &Position) -> (r: Position)
    ensures
        r.eqv(*p),
        p.wf() ==> r.wf(),
{
    Position {
        board: copy_vec_u8(&p.board),
        bb_piece: copy_vec_u64(&p.bb_piece),
        bb_color: copy_vec_u64(&p.bb_color),
        stm: p.stm,
        castling: p.castling,
        ep: p.ep,
        halfmove: p.halfmove,
        fullmove: p.fullmove,
        hash: p.hash,
        hash_history: copy_vec_u64(&p.hash_history),
        last_mv: p.last_mv,
    }
}

/// One mixing round of a 64-bit integer hash; the Zobrist keys are drawn
/// from it.
fn splitmix(x0: u64) -> u64 {
    let mut z = x0.wrapping_add(0x9E3779B97F4A7C15);
    z = (z ^ (z >> 30)).wrapping_mul(0xBF58476D1CE4E5B9);
    z = (z ^ (z >> 27)).wrapping_mul(0x94D049BB133111EB);
    z ^ (z >> 31)
}

/// The Zobrist key of a piece code standing on a square.
fn zobrist_piece(piece: u8, s: u8) -> u64 {
    splitmix(0x00c0ffee_00000000u64.wrapping_add(piece as u64 * 64 + s as u64))
}

/// Recomputes the hash of the whole position: one key for each piece on
/// its square, the side to move, the castling rights and the en-passant
/// file.
fn compute_hash(p: &Position) -> u64
    requires
        p.wf(),
{
    let mut h: u64 = 0;
    let mut s: u8 = 0;
    while s < 64
        invariant
            p.wf(),
            s <= 64,
        decreases 64 - s,
    {
        let pc = p.board[s as usize];
        if pc != 0 {
            h = h ^ zobrist_piece(pc, s);
        }
        s = s + 1;
    }
    if p.stm == Color::Black {
        h = h ^ splitmix(0xb1ac0000);
    }
    h = h ^ splitmix(0xca570000u64.wrapping_add(p.castling as u64));
    if p.ep < 64 {
        h = h ^ splitmix(0xe9000000u64.wrapping_add((p.ep % 8) as u64));
    }
    h
}

/// Rebuilds the two occupancy bitboards from the per-piece boards.
fn refresh_color_bb(p: &mut Position)
    requires
        old(p).wf(),
    ensures
        final(p).wf(),
        final(p).board@ == old(p).board@,
        final(p).bb_piece@ == old(p).bb_piece@,
        final(p).stm == old(p).stm,
        final(p).castling == old(p).castling,
        final(p).ep == old(p).ep,
        final(p).halfmove == old(p).halfmove,
        final(p).fullmove == old(p).fullmove,
        final(p).hash_history@ == old(p).hash_history@,
        final(p).last_mv == old(p).last_mv,
{
    let mut w: u64 = 0;
    let mut b: u64 = 0;
    let mut c: u8 = 1;
    while c < 7
        invariant
            old(p).wf(),
            p.eqv(*old(p)),
            1 <= c <= 7,
        decreases 7 - c,
    {
        w = w | p.bb_piece[c as usize];
        c = c + 1;
    }
    let mut c2: u8 = 9;
    while c2 < 15
        invariant
            old(p).wf(),
            p.eqv(*old(p)),
            9 <= c2 <= 15,
        decreases 15 - c2,
    {
        b = b | p.bb_piece[c2 as usize];
        c2 = c2 + 1;
    }
    p.bb_color.set(0, w);
    p.bb_color.set(1, b);
}

/// An empty board with white to move.
pub fn empty_position() -> (p: Position)
    ensures
        p.wf(),
{
    Position {
        board: vec![0u8; 64],
        bb_piece: vec![0u64; 16],
        bb_color: vec![0u64; 2],
        stm: Color::White,
        castling: 0,
        ep: 64,
        halfmove: 0,
        fullmove: 1,
        hash: 0,
        hash_history: Vec::new(),
        last_mv: NO_MOVE,
    }
}

fn digit_of(c: char) -> (r: Option<u8>)
    ensures
        r matches Some(d) ==> d <= 9,
{
    match c {
        '0' => Some(0),
        '1' => Some(1),
        '2' => Some(2),
        '3' => Some(3),
        '4' => Some(4),
        '5' => Some(5),
        '6' => Some(6),
        '7' => Some(7),
        '8' => Some(8),
        '9' => Some(9),
        _ => None,
    }
}

fn piece_of_char(c: char) -> (r: Option<u8>)
    ensures
        r matches Some(p) ==> piece_ok(p),
{
    match c {
        'P' => Some(1),
        'N' => Some(2),
        'B' => Some(3),
        'R' => Some(4),
        'Q' => Some(5),
        'K' => Some(6),
        'p' => Some(9),
        'n' => Some(10),
        'b' => Some(11),
        'r' => Some(12),
        'q' => Some(13),
        'k' => Some(14),
        _ => None,
    }
}

fn file_of_char(c: char) -> (r: Option<u8>)
    ensures
        r matches Some(f) ==> f < 8,
{
    match c {
        'a' => Some(0),
        'b' => Some(1),
        'c' => Some(2),
        'd' => Some(3),
        'e' => Some(4),
        'f' => Some(5),
        'g' => Some(6),
        'h' => Some(7),
        _ => None,
    }
}

/// Loads a position from the six Forsyth-Edwards fields. A malformed
/// string yields `None` and no position.
pub fn from_fen(s: &str) -> (r: Option<Position>)
    ensures
        r matches Some(p) ==> p.wf(),
{
    let n = s.unicode_len();
    let mut p = empty_position();
    let mut i: usize = 0;
    let mut rank: u8 = 7;
    let mut file: u8 = 0;
    // Piece placement.
    while i < n
        invariant
            n == s@.len(),
            p.wf(),
            rank < 8,
            file <= 8,
            i <= n,
        decreases n - i,
    {
        let c = s.get_char(i);
        if c == ' ' {
            break ;
        }
        if c == '/' {
            if rank == 0 {
                return None;
            }
            rank = rank - 1;
            file = 0;
        } else {
            match digit_of(c) {
                Some(d) => {
                    if d < 1 || d > 8 || file + d > 8 {
                        return None;
                    }
                    file = file + d;
                },
                None => {
                    match piece_of_char(c) {
                        Some(code) => {
                            if file >= 8 {
                                return None;
                            }
                            let sq = rank * 8 + file;
                            p.board.set(sq as usize, code);
                            let x = p.bb_piece[code as usize];
                            p.bb_piece.set(code as usize, x | (1u64 << (sq as u64)));
                            file = file + 1;
                        },
                        None => {
                            return None;
                        },
                    }
                },
            }
        }
        i = i + 1;
    }
    if i >= n || rank != 0 {
        return None;
    }
    i = i + 1;  // the space
    // Side to move.
    if i >= n {
        return None;
    }
    let c = s.get_char(i);
    if c == 'w' {
        p.stm = Color::White;
    } else if c == 'b' {
        p.stm = Color::Black;
    } else {
        return None;
    }
    i = i + 1;
    if i >= n || s.get_char(i) != ' ' {
        return None;
    }
    i = i + 1;
    // Castling rights.
    if i >= n {
        return None;
    }
    if s.get_char(i) == '-' {
        i = i + 1;
    } else {
        let mut guard: u8 = 0;
        while i < n && guard < 4
            invariant
                n == s@.len(),
                i <= n,
                guard <= 4,
                p.wf(),
            decreases 4 - guard,
        {
            let c2 = s.get_char(i);
            if c2 == 'K' {
                p.castling = p.castling | 1;
            } else if c2 == 'Q' {
                p.castling = p.castling | 2;
            } else if c2 == 'k' {
                p.castling = p.castling | 4;
            } else if c2 == 'q' {
                p.castling = p.castling | 8;
            } else {
                break ;
            }
            i = i + 1;
            guard = guard + 1;
        }
    }
    if i >= n || s.get_char(i) != ' ' {
        return None;
    }
    i = i + 1;
    // En-passant square.
    if i >= n {
        return None;
    }
    if s.get_char(i) == '-' {
        i = i + 1;
    } else {
        let fc = s.get_char(i);
        match file_of_char(fc) {
            Some(f) => {
                i = i + 1;
                if i >= n {
                    return None;
                }
                match digit_of(s.get_char(i)) {
                    Some(d) => {
                        if d < 1 || d > 8 {
                            return None;
                        }
                        p.ep = (d - 1) * 8 + f;
                        i = i + 1;
                    },
                    None => {
                        return None;
                    },
                }
            },
            None => {
                return None;
            },
        }
    }
    // Optional counters.
    if i < n && s.get_char(i) == ' ' {
        i = i + 1;
        let (hm, i2) = read_number(s, i, n);
        p.halfmove = hm;
        i = i2;
        if i < n && s.get_char(i) == ' ' {
            i = i + 1;
            let (fm, i3) = read_number(s, i, n);
            p.fullmove = if fm == 0 {
                1
            } else {
                fm
            };
            i = i3;
        }
    }
    refresh_color_bb(&mut p);
    let h = compute_hash(&p);
    p.hash = h;
    Some(p)
}

/// Reads an unsigned decimal number starting at `i`, stopping at the
/// first non-digit; saturates instead of overflowing.
fn read_number(s: &str, start: usize, n: usize) -> (r: (u32, usize))
    requires
        n == s@.len(),
        start <= n,
    ensures
        r.1 <= n,
{
    let mut v: u32 = 0;
    let mut i = start;
    while i < n
        invariant
            n == s@.len(),
            i <= n,
        decreases n - i,
    {
        match digit_of(s.get_char(i)) {
            Some(d) => {
                if v < 100000 {
                    v = v * 10 + d as u32;
                }
                i = i + 1;
            },
            None => {
                break ;
            },
        }
    }
    (v, i)
}

/// The starting position.
pub fn start_position() -> (p: Position)
    ensures
        p.wf(),
{
    match from_fen(START_FEN) {
        Some(p) => p,
        None => empty_position(),
    }
}

/// The centipawn value of a piece type index used by the exchange
/// evaluator.
pub fn piece_value(pt: u8) -> (v: Score)
    ensures
        0 <= v <= 20000,
{
    if pt == 1 {
        100
    } else if pt == 2 {
        325
    } else if pt == 3 {
        325
    } else if pt == 4 {
        500
    } else if pt == 5 {
        975
    } else if pt == 6 {
        20000
    } else {
        0
    }
}

impl Position {
    /// The net material outcome of the capture sequence `m` opens on its
    /// target square, computed by the swap algorithm without a search.
    pub fn static_exchange_eval(&self, tb: &Tables, m: Move) -> (v: Score)
        requires
            self.wf(),
            tb.wf(),
        ensures
            -20000 <= v <= 20000,
    {
        let f = move_from(m);
        let t = move_to(m);
        let mut occ = self.occupied() & !(1u64 << (f as u64));
        let first_victim: u8 = if move_is_ep(m) {
            1
        } else {
            move_capture(m) % 8
        };
        let mut gains: Vec<i32> = Vec::new();
        gains.push(piece_value(first_victim));
        let mut on_square: u8 = move_piece(m) % 8;
        let mut side = self.stm.flip();
        let mut d: usize = 0;
        while d < 32
            invariant
                self.wf(),
                tb.wf(),
                t < 64,
                gains@.len() == d + 1,
                forall|k: int| 0 <= k <= d ==> -1000000 <= #[trigger] gains@[k] <= 1000000,
                on_square <= 7,
            decreases 32 - d,
        {
            let attackers = self.attackers_of(tb, t, occ) & occ;
            let my_attackers = attackers & self.bb_color[side.index()];
            if my_attackers == 0 {
                break ;
            }
            // Find the least valuable attacker.
            let mut found: u8 = 0;
            let mut from_sq: u8 = 64;
            let mut pt: u8 = 1;
            while pt < 7
                invariant
                    self.wf(),
                    found <= 6,
                    from_sq <= 64,
                    1 <= pt <= 7,
                    found != 0 ==> from_sq < 64,
                decreases 7 - pt,
            {
                let code = match side {
                    Color::White => pt,
                    Color::Black => pt + 8,
                };
                let cand = my_attackers & self.bb_piece[code as usize];
                if cand != 0 {
                    found = pt;
                    from_sq = lsb(cand);
                    break ;
                }
                pt = pt + 1;
            }
            if found == 0 {
                break ;
            }
            let prev = gains[d];
            let gv = piece_value(on_square);
            let next = gv - prev;
            if next > 1000000 || next < -1000000 {
                break ;
            }
            gains.push(next);
            occ = occ & !(1u64 << (from_sq as u64));
            on_square = found;
            side = side.flip();
            d = d + 1;
        }
        // Fold the swap list backward.
        let mut i = gains.len() - 1;
        while i > 0
            invariant
                gains@.len() >= 1,
                i < gains@.len(),
                forall|k: int| 0 <= k < gains@.len() ==> -1000000 <= #[trigger] gains@[k] <= 1000000,
            decreases i,
        {
            let parent = gains[i - 1];
            let child = gains[i];
            let folded = if -child < parent {
                -child
            } else {
                parent
            };
            gains.set(i - 1, folded);
            i = i - 1;
        }
        let mut v = gains[0];
        if v > 20000 {
            v = 20000;
        }
        if v < -20000 {
            v = -20000;
        }
        v
    }

    /// The sign of the static exchange: a capture of a more valuable
    /// piece is a win without further analysis.
    pub fn static_exchange_sign(&self, tb: &Tables, m: Move) -> (v: Score)
        requires
            self.wf(),
            tb.wf(),
        ensures
            -20000 <= v <= 20000,
    {
        let victim = move_capture(m) % 8;
        let attacker = move_piece(m) % 8;
        if victim != 0 && piece_value(victim) >= piece_value(attacker) {
            1
        } else {
            self.static_exchange_eval(tb, m)
        }
    }
}

/// Per-node cached attack information: the opposing king, the squares
/// from which each piece type would check it, the own pieces whose move
/// may discover a check, and the own pieces pinned to the own king.
pub struct AttackData {
    pub their_king: u8,
    pub potential_checks: Vec<u64>,
    pub check_discoverers: u64,
    pub pinned: u64,
}

impl AttackData {
    pub open spec fn wf(self) -> bool {
        self.potential_checks.len() == 7 && self.their_king <= 64
    }

    pub fn new(pos: &Position, tb: &Tables) -> (ad: AttackData)
        requires
            pos.wf(),
            tb.wf(),
        ensures
            ad.wf(),
            pos.bb_piece[Position::spec_code(pos.stm.spec_flip(), 6)] == 0 ==> ad.their_king == 64,
            pos.bb_piece[Position::spec_code(pos.stm.spec_flip(), 6)] != 0 ==> {
                let occ = pos.bb_color[0] | pos.bb_color[1];
                &&& ad.their_king == pos.king_sq_spec(pos.stm.spec_flip())
                &&& ad.their_king < 64
                &&& forall|t: u64|
                    t < 64 ==> (#[trigger] bit64(ad.potential_checks[1], t) == pawn_att_pred(
                        pos.stm,
                        t as u8,
                        ad.their_king as u64,
                    ))
                &&& forall|t: u64|
                    t < 64 ==> (#[trigger] bit64(ad.potential_checks[2], t) == knight_att_pred(
                        t as u8,
                        ad.their_king as u64,
                    ))
                &&& forall|t: u64|
                    t < 64 ==> (#[trigger] bit64(ad.potential_checks[3], t) == bishop_att_pred(
                        t as u8,
                        occ,
                        ad.their_king as u64,
                    ))
                &&& forall|t: u64|
                    t < 64 ==> (#[trigger] bit64(ad.potential_checks[4], t) == rook_att_pred(
                        t as u8,
                        occ,
                        ad.their_king as u64,
                    ))
                &&& forall|t: u64|
                    t < 64 ==> (#[trigger] bit64(ad.potential_checks[5], t) == queen_att_pred(
                        t as u8,
                        occ,
                        ad.their_king as u64,
                    ))
            },
    {
        let us = pos.stm;
        let them = us.flip();
        let occ = pos.occupied();
        let tk = pos.king_sq(them);
        let mut potential: Vec<u64> = Vec::new();
        if tk >= 64 {
            let mut i: u8 = 0;
            while i < 7
                invariant
                    potential@.len() == i,
                    i <= 7,
                decreases 7 - i,
            {
                potential.push(0);
                i = i + 1;
            }
            return AttackData { their_king: 64, potential_checks: potential, check_discoverers: 0, pinned: 0 };
        }
        potential.push(0);
        potential.push(tb.pawn(them, tk));
        potential.push(tb.knight(tk));
        let ba = tb.magic_bishop_attacks(tk, occ);
        let ra = tb.magic_rook_attacks(tk, occ);
        potential.push(ba);
        potential.push(ra);
        potential.push(ba | ra);
        potential.push(0);
        let discoverers = blockers_for(pos, tb, tk, us, us);
        let ks = pos.king_sq(us);
        let pinned = if ks < 64 {
            blockers_for(pos, tb, ks, them, us)
        } else {
            0
        };
        proof {
            crate::bitboard::lemma_bit_basics();
            assert forall|t: u64| t < 64 implies (#[trigger] bit64(potential@[1], t)
                == pawn_att_pred(us, t as u8, tk as u64)) by {}
            assert forall|t: u64| t < 64 implies (#[trigger] bit64(potential@[3], t)
                == bishop_att_pred(t as u8, occ, tk as u64)) by {
                lemma_bishop_att_sym(tk, t as u8, occ);
            }
            assert forall|t: u64| t < 64 implies (#[trigger] bit64(potential@[4], t)
                == rook_att_pred(t as u8, occ, tk as u64)) by {
                lemma_rook_att_sym(tk, t as u8, occ);
            }
            assert forall|t: u64| t < 64 implies (#[trigger] bit64(potential@[5], t)
                == queen_att_pred(t as u8, occ, tk as u64)) by {
                lemma_bishop_att_sym(tk, t as u8, occ);
                lemma_rook_att_sym(tk, t as u8, occ);
            }
        }
        AttackData { their_king: tk, potential_checks: potential, check_discoverers: discoverers, pinned }
    }
}

/// The pieces of `owner` standing alone between `target` and a slider of
/// `slider_side` aligned with it.
fn blockers_for(pos: &Position, tb: &Tables, target: u8, slider_side: Color, owner: Color) -> (b:
    Bitboard)
    requires
        pos.wf(),
        tb.wf(),
        target < 64,
{
    let occ = pos.occupied();
    let mut snipers = (tb.rook_pseudo_attacks(target) & (pos.pieces(slider_side, PieceType::Rook)
        | pos.pieces(slider_side, PieceType::Queen))) | (tb.bishop_pseudo_attacks(target) & (pos.pieces(
        slider_side,
        PieceType::Bishop,
    ) | pos.pieces(slider_side, PieceType::Queen)));
    let mut blockers: u64 = 0;
    let mut guard: u8 = 0;
    while guard < 64 && snipers != 0
        invariant
            pos.wf(),
            tb.wf(),
            target < 64,
            guard <= 64,
        decreases 64 - guard,
    {
        let sq = pop_square(&mut snipers);
        let between = tb.between(sq, target) & occ;
        if between != 0 {
            let one = lsb(between);
            let rest = between & !(1u64 << (one as u64));
            if rest == 0 && (between & pos.bb_color[owner.index()]) != 0 {
                blockers = blockers | between;
            }
        }
        guard = guard + 1;
    }
    blockers
}

} // verus!
