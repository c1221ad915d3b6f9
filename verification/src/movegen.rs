//! Staged pseudo-legal move generation and selection: the transposition
//! move first, then winning captures and queen promotions, killers, the
//! counter-move, quiet moves by history score, and losing captures last.
//! When in check only evasions are produced.

use vstd::prelude::*;

use crate::bitboard::{bit64, lsb, pop_square, Bitboard};
use crate::board::{Color, PieceType};
use crate::magics::Tables;
use crate::movement::{
    make_move, move_capture, move_from, move_is_capture, move_is_castle, move_is_ep, move_piece,
    move_promote, move_to, Move, NO_MOVE,
};
use crate::position::{clone_position, count_bits, AttackData, Position};
use crate::score::{Score, MIN_SCORE};

verus! {

/// Pushes one move for each target square popped from `targets`.
fn push_targets(
    out: &mut Vec<Move>,
    pos: &Position,
    from: u8,
    piece: u8,
    targets0: Bitboard,
    captures: bool,
)
    requires
        old(out).len() <= 100000,
        pos.wf(),
        from < 64,
        piece < 16,
    ensures
        final(out).len() <= old(out).len() + 64,
{
    let mut targets = targets0;
    let mut guard: u8 = 0;
    while guard < 64 && targets != 0
        invariant
            pos.wf(),
            from < 64,
            piece < 16,
            guard <= 64,
            out.len() <= old(out).len() + guard,
        decreases 64 - guard,
    {
        let t = pop_square(&mut targets);
        let cap: u8 = if captures {
            pos.board[t as usize] % 16
        } else {
            0
        };
        out.push(make_move(from, t, piece, cap, 0, false, false));
        guard = guard + 1;
    }
}

/// Pushes the four promotions of a pawn arriving on `t`, or the queen
/// promotion alone.
fn push_promotions(
    out: &mut Vec<Move>,
    pos: &Position,
    us: Color,
    from: u8,
    t: u8,
    cap: u8,
    queen_only: bool,
)
    requires
        pos.wf(),
        from < 64,
        t < 64,
        cap < 16,
    ensures
        final(out).len() <= old(out).len() + 4,
{
    let piece = crate::board::make_piece(us, PieceType::Pawn);
    out.push(make_move(from, t, piece, cap, 5, false, false));
    if !queen_only {
        out.push(make_move(from, t, piece, cap, 2, false, false));
        out.push(make_move(from, t, piece, cap, 3, false, false));
        out.push(make_move(from, t, piece, cap, 4, false, false));
    }
}

/// Generates the pseudo-legal moves of the side to move. With
/// `caps_only` (and not in check) only captures and queen promotions
/// come out; in check only evasions are produced.
pub fn generate_pseudo(pos: &Position, tb: &Tables, caps_only: bool) -> (r: Vec<Move>)
    requires
        pos.wf(),
        tb.wf(),
    ensures
        r.len() <= 20000,
{
    let us = pos.us();
    let them = pos.them();
    let usi = us.index();
    let themi = them.index();
    let occ = pos.occupied();
    let our = pos.bb_color[usi];
    let their = pos.bb_color[themi];
    let their_nk = their & !pos.pieces(them, PieceType::King);
    let checkers = pos.checkers(tb);
    let in_check = checkers != 0;
    let ks = pos.king_sq(us);
    let double_check = in_check && count_bits(checkers) > 1;
    let allow: u64 = if in_check {
        if double_check {
            0
        } else {
            let cs = lsb(checkers);
            checkers | (if ks < 64 {
                tb.between(cs, ks)
            } else {
                0
            })
        }
    } else {
        !0u64
    };
    let want_quiets = !caps_only || in_check;
    let cap_targets = their_nk & allow;
    let quiet_targets = !occ & allow;
    let mut out: Vec<Move> = Vec::new();
    // King moves: never masked by the evasion targets.
    if ks < 64 {
        let kp = crate::board::make_piece(us, PieceType::King);
        let katt = tb.king(ks);
        push_targets(&mut out, pos, ks, kp, katt & their_nk, true);
        if want_quiets {
            push_targets(&mut out, pos, ks, kp, katt & !occ, false);
        }
    }
    if !double_check {
        // Knights.
        let np = crate::board::make_piece(us, PieceType::Knight);
        let mut bb = pos.pieces(us, PieceType::Knight);
        let mut guard: u8 = 0;
        while guard < 64 && bb != 0
            invariant
                pos.wf(),
                tb.wf(),
                np < 16,
                guard <= 64,
                out.len() <= 10000,
            decreases 64 - guard,
        {
            let s = pop_square(&mut bb);
            let atts = tb.knight(s);
            push_targets(&mut out, pos, s, np, atts & cap_targets, true);
            if want_quiets {
                push_targets(&mut out, pos, s, np, atts & quiet_targets, false);
            }
            if out.len() > 9000 {
                return out;
            }
            guard = guard + 1;
        }
        // Sliders.
        let mut kind: u8 = 0;
        while kind < 3
            invariant
                pos.wf(),
                tb.wf(),
                kind <= 3,
                out.len() <= 10000,
            decreases 3 - kind,
        {
            let pt = if kind == 0 {
                PieceType::Bishop
            } else if kind == 1 {
                PieceType::Rook
            } else {
                PieceType::Queen
            };
            let pc = crate::board::make_piece(us, pt);
            let mut bb2 = pos.pieces(us, pt);
            let mut guard2: u8 = 0;
            while guard2 < 64 && bb2 != 0
                invariant
                    pos.wf(),
                    tb.wf(),
                    pc < 16,
                    guard2 <= 64,
                    kind <= 2,
                    out.len() <= 10000,
                decreases 64 - guard2,
            {
                let s = pop_square(&mut bb2);
                let atts = if kind == 0 {
                    tb.magic_bishop_attacks(s, occ)
                } else if kind == 1 {
                    tb.magic_rook_attacks(s, occ)
                } else {
                    tb.magic_queen_attacks(s, occ)
                };
                push_targets(&mut out, pos, s, pc, atts & cap_targets, true);
                if want_quiets {
                    push_targets(&mut out, pos, s, pc, atts & quiet_targets, false);
                }
                if out.len() > 9000 {
                    return out;
                }
                guard2 = guard2 + 1;
            }
            kind = kind + 1;
        }
        // Pawns.
        let pp = crate::board::make_piece(us, PieceType::Pawn);
        let mut pbb = pos.pieces(us, PieceType::Pawn);
        let mut guard3: u8 = 0;
        while guard3 < 64 && pbb != 0
            invariant
                pos.wf(),
                tb.wf(),
                pp < 16,
                us == pos.stm,
                guard3 <= 64,
                out.len() <= 10000,
            decreases 64 - guard3,
        {
            let s = pop_square(&mut pbb);
            let rank = s / 8;
            let promo_rank = match us {
                Color::White => rank == 6,
                Color::Black => rank == 1,
            };
            // Captures, including capture promotions.
            let mut catts = tb.pawn(us, s) & cap_targets;
            let mut g4: u8 = 0;
            while g4 < 8 && catts != 0
                invariant
                    pos.wf(),
                    s < 64,
                    pp < 16,
                    g4 <= 8,
                    out.len() <= 10000 + 4 * (g4 as int),
                decreases 8 - g4,
            {
                let t = pop_square(&mut catts);
                let cap = pos.board[t as usize] % 16;
                if promo_rank {
                    push_promotions(&mut out, pos, us, s, t, cap, caps_only && !in_check);
                } else {
                    out.push(make_move(s, t, pp, cap, 0, false, false));
                }
                g4 = g4 + 1;
            }
            // En passant: the target square itself is empty.
            if pos.ep < 64 {
                let epb = tb.pawn(us, s);
                if bit_test(epb, pos.ep) {
                    let their_pawn = crate::board::make_piece(them, PieceType::Pawn);
                    out.push(make_move(s, pos.ep, pp, their_pawn, 0, false, true));
                }
            }
            // Pushes.
            let fwd: u8 = match us {
                Color::White => {
                    if rank < 7 {
                        s + 8
                    } else {
                        s
                    }
                },
                Color::Black => {
                    if rank > 0 {
                        s - 8
                    } else {
                        s
                    }
                },
            };
            if fwd != s && !bit_test(occ, fwd) {
                if promo_rank {
                    if bit_test(allow, fwd) {
                        push_promotions(&mut out, pos, us, s, fwd, 0, caps_only && !in_check);
                    }
                } else {
                    if want_quiets && bit_test(allow, fwd) {
                        out.push(make_move(s, fwd, pp, 0, 0, false, false));
                    }
                    // Double push from the home rank.
                    let home = match us {
                        Color::White => rank == 1,
                        Color::Black => rank == 6,
                    };
                    if want_quiets && home {
                        let fwd2: u8 = match us {
                            Color::White => s + 16,
                            Color::Black => s - 16,
                        };
                        if !bit_test(occ, fwd2) && bit_test(allow, fwd2) {
                            out.push(make_move(s, fwd2, pp, 0, 0, false, false));
                        }
                    }
                }
            }
            if out.len() > 9000 {
                return out;
            }
            guard3 = guard3 + 1;
        }
        // Castling.
        if !in_check && want_quiets && ks < 64 {
            let kp = crate::board::make_piece(us, PieceType::King);
            if us == Color::White && ks == 4 {
                if pos.castling & 1 != 0 && !bit_test(occ, 5) && !bit_test(occ, 6) && !pos.attacked(
                    tb,
                    5,
                    them,
                    occ,
                ) && !pos.attacked(tb, 6, them, occ) {
                    out.push(make_move(4, 6, kp, 0, 0, true, false));
                }
                if pos.castling & 2 != 0 && !bit_test(occ, 3) && !bit_test(occ, 2) && !bit_test(
                    occ,
                    1,
                ) && !pos.attacked(tb, 3, them, occ) && !pos.attacked(tb, 2, them, occ) {
                    out.push(make_move(4, 2, kp, 0, 0, true, false));
                }
            }
            if us == Color::Black && ks == 60 {
                if pos.castling & 4 != 0 && !bit_test(occ, 61) && !bit_test(occ, 62)
                    && !pos.attacked(tb, 61, them, occ) && !pos.attacked(tb, 62, them, occ) {
                    out.push(make_move(60, 62, kp, 0, 0, true, false));
                }
                if pos.castling & 8 != 0 && !bit_test(occ, 59) && !bit_test(occ, 58) && !bit_test(
                    occ,
                    57,
                ) && !pos.attacked(tb, 59, them, occ) && !pos.attacked(tb, 58, them, occ) {
                    out.push(make_move(60, 58, kp, 0, 0, true, false));
                }
            }
        }
    }
    out
}

/// Bit `s` of `b` as an executable test.
pub fn bit_test(b: Bitboard, s: u8) -> (r: bool)
    requires
        s < 64,
    ensures
        r == bit64(b, s as u64),
{
    (b >> (s as u64)) & 1 == 1
}

/// Full legality of a generated pseudo-legal move: king moves and
/// en-passant captures are replayed on a copy, other moves only need a
/// pin check (evasion targets were already restricted at generation).
pub fn pseudo_move_is_legal(pos: &Position, tb: &Tables, ad: &AttackData, m: Move) -> (r: bool)
    requires
        pos.wf(),
        tb.wf(),
        ad.wf(),
{
    if move_is_castle(m) {
        return true;
    }
    let us = pos.us();
    let piece_type = move_piece(m) % 8;
    if move_is_ep(m) || piece_type == 6 {
        let mut p2 = clone_position(pos);
        p2.do_move(tb, m);
        let ks2 = p2.king_sq(us);
        if ks2 >= 64 {
            return false;
        }
        return !p2.attacked(tb, ks2, p2.us(), p2.occupied());
    }
    let f = move_from(m);
    if !bit_test(ad.pinned, f) {
        return true;
    }
    let ks = pos.king_sq(us);
    if ks >= 64 {
        return true;
    }
    bit_test(tb.ray(f, ks), move_to(m))
}

/// A staged move iterator: the emission order is fixed at construction
/// and each emitted move carries its cached exchange value and its
/// stage flags.
pub struct MoveSelector {
    pub moves: Vec<Move>,
    pub sees: Vec<Score>,
    pub bads: Vec<bool>,
    pub specials: Vec<bool>,
    pub idx: usize,
    pub last_see_v: Score,
    pub last_bad: bool,
    pub last_special: bool,
}

impl MoveSelector {
    pub open spec fn wf(self) -> bool {
        &&& self.sees.len() == self.moves.len()
        &&& self.bads.len() == self.moves.len()
        &&& self.specials.len() == self.moves.len()
        &&& self.idx <= self.moves.len()
    }

    /// The next candidate move, or nothing when exhausted.
    pub fn next(&mut self) -> (r: Option<Move>)
        requires
            old(self).wf(),
        ensures
            final(self).wf(),
            final(self).moves == old(self).moves,
            r is Some ==> old(self).idx < old(self).moves.len() && r == Some(
                old(self).moves[old(self).idx as int],
            ) && final(self).idx == old(self).idx + 1,
            r is None ==> old(self).idx == old(self).moves.len() && *final(self) == *old(self),
    {
        if self.idx < self.moves.len() {
            let m = self.moves[self.idx];
            self.last_see_v = self.sees[self.idx];
            self.last_bad = self.bads[self.idx];
            self.last_special = self.specials[self.idx];
            self.idx = self.idx + 1;
            Some(m)
        } else {
            None
        }
    }

    /// The cached static exchange value of the move last emitted;
    /// `MIN_SCORE` when it was not computed during ordering.
    pub fn last_see(&self) -> (v: Score)
        ensures
            v == self.last_see_v,
    {
        self.last_see_v
    }

    /// True when the last move came from the losing-captures stage.
    pub fn bad_move(&self) -> (r: bool)
        ensures
            r == self.last_bad,
    {
        self.last_bad
    }

    /// True when the last move was the transposition move, a killer, a
    /// counter-move or a promotion.
    pub fn special_move(&self) -> (r: bool)
        ensures
            r == self.last_special,
    {
        self.last_special
    }

    /// A selector that emits exactly the given moves in order.
    pub fn from_list(moves: Vec<Move>) -> (r: MoveSelector)
        ensures
            r.wf(),
    {
        let n = moves.len();
        let mut sees: Vec<Score> = Vec::new();
        let mut bads: Vec<bool> = Vec::new();
        let mut specials: Vec<bool> = Vec::new();
        let mut i: usize = 0;
        while i < n
            invariant
                sees.len() == i,
                bads.len() == i,
                specials.len() == i,
                i <= n,
            decreases n - i,
        {
            sees.push(MIN_SCORE);
            bads.push(false);
            specials.push(false);
            i = i + 1;
        }
        MoveSelector {
            moves,
            sees,
            bads,
            specials,
            idx: 0,
            last_see_v: MIN_SCORE,
            last_bad: false,
            last_special: false,
        }
    }

    /// The fully legal moves of the position, for the root of a search.
    pub fn legal(pos: &Position, tb: &Tables) -> (r: MoveSelector)
        requires
            pos.wf(),
            tb.wf(),
        ensures
            r.wf(),
    {
        MoveSelector::from_list(legal_moves(pos, tb))
    }

    /// The staged selector used inside the search.
    pub fn new(
        pos: &Position,
        tb: &Tables,
        quiescence: bool,
        killer1: Move,
        killer2: Move,
        tt_move: Move,
        counter_move: Move,
        history: &Vec<Score>,
    ) -> (r: MoveSelector)
        requires
            pos.wf(),
            tb.wf(),
            history.len() == 1024,
        ensures
            r.wf(),
    {
        let in_check = pos.checkers(tb) != 0;
        let gen = generate_pseudo(pos, tb, quiescence && !in_check);
        let n = gen.len();
        let mut used: Vec<bool> = Vec::new();
        let mut sees: Vec<Score> = Vec::new();
        let mut i: usize = 0;
        while i < n
            invariant
                used.len() == i,
                sees.len() == i,
                i <= n,
            decreases n - i,
        {
            used.push(false);
            sees.push(MIN_SCORE);
            i = i + 1;
        }
        let mut moves: Vec<Move> = Vec::new();
        let mut out_sees: Vec<Score> = Vec::new();
        let mut bads: Vec<bool> = Vec::new();
        let mut specials: Vec<bool> = Vec::new();
        // Stage 1: the transposition move.
        if tt_move != NO_MOVE {
            let mut j: usize = 0;
            while j < n
                invariant
                    used.len() == n,
                    sees.len() == n,
                    gen.len() == n,
                    moves.len() == out_sees.len() == bads.len() == specials.len(),
                    j <= n,
                decreases n - j,
            {
                if gen[j] == tt_move && !used[j] {
                    used.set(j, true);
                    moves.push(tt_move);
                    out_sees.push(MIN_SCORE);
                    bads.push(false);
                    specials.push(true);
                    break ;
                }
                j = j + 1;
            }
        }
        // Compute exchange values for captures and promotions.
        let mut j: usize = 0;
        while j < n
            invariant
                used.len() == n,
                sees.len() == n,
                gen.len() == n,
                pos.wf(),
                tb.wf(),
                j <= n,
            decreases n - j,
        {
            let m = gen[j];
            if move_is_capture(m) || move_promote(m) != 0 {
                sees.set(j, pos.static_exchange_sign(tb, m));
            }
            j = j + 1;
        }
        // Stage 2: winning or equal captures and queen promotions, best
        // exchange first.
        emit_stage(&gen, &mut used, &sees, &mut moves, &mut out_sees, &mut bads, &mut specials, 0);
        // Stage 3 and 4: killers, then the counter-move.
        emit_quiet_special(&gen, &mut used, &mut moves, &mut out_sees, &mut bads, &mut specials, killer1);
        emit_quiet_special(&gen, &mut used, &mut moves, &mut out_sees, &mut bads, &mut specials, killer2);
        emit_quiet_special(
            &gen,
            &mut used,
            &mut moves,
            &mut out_sees,
            &mut bads,
            &mut specials,
            counter_move,
        );
        // Stage 5: quiet moves by history score.
        emit_quiets(&gen, &mut used, history, &mut moves, &mut out_sees, &mut bads, &mut specials);
        // Stage 6: losing captures.
        emit_stage(&gen, &mut used, &sees, &mut moves, &mut out_sees, &mut bads, &mut specials, 1);
        MoveSelector {
            moves,
            sees: out_sees,
            bads,
            specials,
            idx: 0,
            last_see_v: MIN_SCORE,
            last_bad: false,
            last_special: false,
        }
    }
}

/// Emits captures and promotions: stage 0 takes the non-losing ones in
/// descending exchange order, stage 1 the losing ones.
fn emit_stage(
    gen: &Vec<Move>,
    used: &mut Vec<bool>,
    sees: &Vec<Score>,
    moves: &mut Vec<Move>,
    out_sees: &mut Vec<Score>,
    bads: &mut Vec<bool>,
    specials: &mut Vec<bool>,
    stage: u8,
)
    requires
        gen.len() <= 20000,
        old(used).len() == gen.len(),
        sees.len() == gen.len(),
        old(moves).len() == old(out_sees).len() == old(bads).len() == old(specials).len(),
    ensures
        final(used).len() == gen.len(),
        final(moves).len() == final(out_sees).len() == final(bads).len() == final(specials).len(),
{
    let n = gen.len();
    let mut emitted: usize = 0;
    while emitted <= n
        invariant
            used.len() == n,
            sees.len() == n,
            gen.len() == n,
            n <= 20000,
            moves.len() == out_sees.len() == bads.len() == specials.len(),
            emitted <= n + 1,
        decreases n + 1 - emitted,
    {
        // Find the best not-yet-used candidate of this stage.
        let mut best: usize = n;
        let mut best_see: Score = MIN_SCORE;
        let mut j: usize = 0;
        while j < n
            invariant
                used.len() == n,
                sees.len() == n,
                gen.len() == n,
                j <= n,
                best <= n,
            decreases n - j,
        {
            let m = gen[j];
            let is_tactical = move_is_capture(m) || move_promote(m) == 5;
            let in_stage = if stage == 0 {
                sees[j] >= 0
            } else {
                sees[j] < 0 && sees[j] != MIN_SCORE
            };
            if !used[j] && is_tactical && in_stage && (best == n || sees[j] > best_see) {
                best = j;
                best_see = sees[j];
            }
            j = j + 1;
        }
        if best == n {
            return ;
        }
        used.set(best, true);
        moves.push(gen[best]);
        out_sees.push(sees[best]);
        bads.push(stage == 1);
        specials.push(move_promote(gen[best]) == 5);
        emitted = emitted + 1;
    }
}

/// Emits one specific quiet move (a killer or the counter-move) if the
/// generator produced it and it was not emitted yet.
fn emit_quiet_special(
    gen: &Vec<Move>,
    used: &mut Vec<bool>,
    moves: &mut Vec<Move>,
    out_sees: &mut Vec<Score>,
    bads: &mut Vec<bool>,
    specials: &mut Vec<bool>,
    wanted: Move,
)
    requires
        old(used).len() == gen.len(),
        old(moves).len() == old(out_sees).len() == old(bads).len() == old(specials).len(),
    ensures
        final(used).len() == gen.len(),
        final(moves).len() == final(out_sees).len() == final(bads).len() == final(specials).len(),
{
    if wanted == NO_MOVE {
        return ;
    }
    let n = gen.len();
    let mut j: usize = 0;
    while j < n
        invariant
            used.len() == n,
            gen.len() == n,
            moves.len() == out_sees.len() == bads.len() == specials.len(),
            j <= n,
        decreases n - j,
    {
        if gen[j] == wanted && !used[j] && !move_is_capture(gen[j]) && move_promote(gen[j]) == 0 {
            used.set(j, true);
            moves.push(wanted);
            out_sees.push(MIN_SCORE);
            bads.push(false);
            specials.push(true);
            return ;
        }
        j = j + 1;
    }
}

/// Emits the remaining quiet moves in descending history order.
fn emit_quiets(
    gen: &Vec<Move>,
    used: &mut Vec<bool>,
    history: &Vec<Score>,
    moves: &mut Vec<Move>,
    out_sees: &mut Vec<Score>,
    bads: &mut Vec<bool>,
    specials: &mut Vec<bool>,
)
    requires
        gen.len() <= 20000,
        old(used).len() == gen.len(),
        history.len() == 1024,
        old(moves).len() == old(out_sees).len() == old(bads).len() == old(specials).len(),
    ensures
        final(used).len() == gen.len(),
        final(moves).len() == final(out_sees).len() == final(bads).len() == final(specials).len(),
{
    let n = gen.len();
    let mut emitted: usize = 0;
    while emitted <= n
        invariant
            used.len() == n,
            gen.len() == n,
            history.len() == 1024,
            n <= 20000,
            moves.len() == out_sees.len() == bads.len() == specials.len(),
            emitted <= n + 1,
        decreases n + 1 - emitted,
    {
        let mut best: usize = n;
        let mut best_h: Score = MIN_SCORE;
        let mut j: usize = 0;
        while j < n
            invariant
                used.len() == n,
                gen.len() == n,
                history.len() == 1024,
                j <= n,
                best <= n,
            decreases n - j,
        {
            let m = gen[j];
            if !used[j] && !move_is_capture(m) && move_promote(m) == 0 {
                let h = history[history_index_of(m)];
                if best == n || h > best_h {
                    best = j;
                    best_h = h;
                }
            }
            j = j + 1;
        }
        if best == n {
            return ;
        }
        used.set(best, true);
        moves.push(gen[best]);
        out_sees.push(MIN_SCORE);
        bads.push(false);
        specials.push(false);
        emitted = emitted + 1;
    }
}

/// The history table slot of a move: its piece code times 64 plus its
/// target square, so no two (piece, target) pairs share a slot.
pub fn history_index_of(m: Move) -> (i: usize)
    ensures
        i < 1024,
        i == crate::movement::move_piece_spec(m) * 64 + crate::movement::move_to_spec(m),
{
    let p = move_piece(m);
    let t = move_to(m);
    (p as usize) * 64 + t as usize
}

/// The fully legal moves of the position, in generation order.
pub fn legal_moves(pos: &Position, tb: &Tables) -> (r: Vec<Move>)
    requires
        pos.wf(),
        tb.wf(),
{
    let ad = AttackData::new(pos, tb);
    let gen = generate_pseudo(pos, tb, false);
    let mut out: Vec<Move> = Vec::new();
    let mut i: usize = 0;
    while i < gen.len()
        invariant
            pos.wf(),
            tb.wf(),
            ad.wf(),
            i <= gen.len(),
        decreases gen.len() - i,
    {
        if pseudo_move_is_legal(pos, tb, &ad, gen[i]) {
            out.push(gen[i]);
        }
        i = i + 1;
    }
    out
}

} // verus!
