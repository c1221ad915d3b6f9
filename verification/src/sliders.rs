//! Sliding attacks along ranks, files and diagonals, and the derived
//! between/ray geometry. Attack sets are specified square by square:
//! a target square is attacked exactly when it lies some number of steps
//! away in an attack direction with no occupied square strictly before it.

use vstd::prelude::*;

use crate::bitboard::{bit64, lemma_bit_basics, Bitboard};
use crate::board::{chebyshev, file_of, rank_of, square_ok, Square};

verus! {

/// The rank reached after `k` steps of `dr` from `s`.
pub open spec fn step_rank(s: Square, dr: int, k: int) -> int {
    rank_of(s) + k * dr
}

/// The file reached after `k` steps of `df` from `s`.
pub open spec fn step_file(s: Square, df: int, k: int) -> int {
    file_of(s) + k * df
}

pub open spec fn coords_ok(r: int, f: int) -> bool {
    0 <= r < 8 && 0 <= f < 8
}

/// The square reached after `k` steps of direction `(dr, df)` from `s`.
pub open spec fn step_square(s: Square, dr: int, df: int, k: int) -> int {
    step_rank(s, dr, k) * 8 + step_file(s, df, k)
}

pub open spec fn step_on_board(s: Square, dr: int, df: int, k: int) -> bool {
    coords_ok(step_rank(s, dr, k), step_file(s, df, k))
}

/// A single direction of sliding attack: `t` is reached from `s` after
/// `k >= 1` steps of `(dr, df)`, every square strictly before it empty in
/// `occ`. The first occupied square is included and stops the ray.
pub open spec fn dir_att_pred(s: Square, occ: u64, dr: int, df: int, t: u64) -> bool {
    exists|k: int|
        1 <= k <= 7 && #[trigger] step_on_board(s, dr, df, k) && t == step_square(s, dr, df, k)
            && (forall|k2: int| 1 <= k2 < k ==> !bit64(occ, #[trigger] step_square(s, dr, df, k2) as u64))
}

/// Bishop attack set membership: any of the four diagonal directions.
pub open spec fn bishop_att_pred(s: Square, occ: u64, t: u64) -> bool {
    dir_att_pred(s, occ, 1, 1, t) || dir_att_pred(s, occ, 1, -1, t) || dir_att_pred(
        s,
        occ,
        -1,
        1,
        t,
    ) || dir_att_pred(s, occ, -1, -1, t)
}

/// Rook attack set membership: any of the four orthogonal directions.
pub open spec fn rook_att_pred(s: Square, occ: u64, t: u64) -> bool {
    dir_att_pred(s, occ, 1, 0, t) || dir_att_pred(s, occ, -1, 0, t) || dir_att_pred(s, occ, 0, 1, t)
        || dir_att_pred(s, occ, 0, -1, t)
}

/// Queen attack set membership: the union of the rook and bishop sets.
pub open spec fn queen_att_pred(s: Square, occ: u64, t: u64) -> bool {
    rook_att_pred(s, occ, t) || bishop_att_pred(s, occ, t)
}

/// Multiplication by a unit direction, written out for the linear solver.
pub proof fn lemma_unit_mul(k: int, d: int)
    by (nonlinear_arith)
    ensures
        d == 1 ==> k * d == k,
        d == -1 ==> k * d == -k,
        d == 0 ==> k * d == 0,
        (k + 1) * d == k * d + d,
{
}

/// If the step `kw` lies on the board, so does every earlier step.
proof fn lemma_steps_within(s: Square, dr: int, df: int, k: int, kw: int)
    requires
        square_ok(s),
        -1 <= dr <= 1,
        -1 <= df <= 1,
        1 <= k <= kw,
        step_on_board(s, dr, df, kw),
    ensures
        step_on_board(s, dr, df, k),
{
    lemma_unit_mul(k, dr);
    lemma_unit_mul(kw, dr);
    lemma_unit_mul(k, df);
    lemma_unit_mul(kw, df);
}

/// The attack set of `s` along the single direction `(dr, df)` given the
/// occupancy `occ`.
fn slide_dir(s: Square, occ: u64, dr: i8, df: i8) -> (m: Bitboard)
    requires
        square_ok(s),
        -1 <= dr <= 1,
        -1 <= df <= 1,
        !(dr == 0 && df == 0),
    ensures
        forall|j: u64| j < 64 ==> #[trigger] bit64(m, j) == dir_att_pred(
            s,
            occ,
            dr as int,
            df as int,
            j,
        ),
{
    proof {
        lemma_bit_basics();
    }
    let mut m: u64 = 0;
    let mut r: i16 = (s / 8) as i16 + dr as i16;
    let mut f: i16 = (s % 8) as i16 + df as i16;
    let mut k: u8 = 1;
    let mut blocked = false;
    while !blocked && 0 <= r && r < 8 && 0 <= f && f < 8
        invariant
            square_ok(s),
            -1 <= dr <= 1,
            -1 <= df <= 1,
            !(dr == 0 && df == 0),
            1 <= k <= 8,
            r == step_rank(s, dr as int, k as int),
            f == step_file(s, df as int, k as int),
            forall|k2: int| 1 <= k2 < k ==> #[trigger] step_on_board(s, dr as int, df as int, k2),
            forall|k2: int|
                1 <= k2 < k - 1 ==> !bit64(
                    occ,
                    #[trigger] step_square(s, dr as int, df as int, k2) as u64,
                ),
            blocked <==> (k > 1 && bit64(
                occ,
                step_square(s, dr as int, df as int, k - 1 as int) as u64,
            )),
            forall|j: u64|
                j < 64 ==> (#[trigger] bit64(m, j) <==> (exists|k2: int|
                    1 <= k2 < k && j == #[trigger] step_square(s, dr as int, df as int, k2))),
        decreases 8 - k,
    {
        proof {
            lemma_bit_basics();
            lemma_unit_mul(k as int, dr as int);
            lemma_unit_mul(k as int, df as int);
        }
        let cur: u8 = (r * 8 + f) as u8;
        assert(cur == step_square(s, dr as int, df as int, k as int));
        m = m | (1u64 << (cur as u64));
        blocked = (occ >> (cur as u64)) & 1 == 1;
        r = r + dr as i16;
        f = f + df as i16;
        k = k + 1;
        assert(forall|j: u64|
            j < 64 ==> (#[trigger] bit64(m, j) <==> (exists|k2: int|
                1 <= k2 < k && j == #[trigger] step_square(s, dr as int, df as int, k2))));
    }
    proof {
        assert forall|j: u64| j < 64 implies #[trigger] bit64(m, j) == dir_att_pred(
            s,
            occ,
            dr as int,
            df as int,
            j,
        ) by {
            if bit64(m, j) {
                let k2 = choose|k2: int|
                    1 <= k2 < k && j == #[trigger] step_square(s, dr as int, df as int, k2);
                assert(step_on_board(s, dr as int, df as int, k2));
                assert(forall|k3: int|
                    1 <= k3 < k2 ==> !bit64(
                        occ,
                        #[trigger] step_square(s, dr as int, df as int, k3) as u64,
                    ));
                assert(dir_att_pred(s, occ, dr as int, df as int, j));
            }
            if dir_att_pred(s, occ, dr as int, df as int, j) {
                let kw = choose|kw: int|
                    1 <= kw <= 7 && #[trigger] step_on_board(s, dr as int, df as int, kw) && j
                        == step_square(s, dr as int, df as int, kw) && (forall|k2: int|
                        1 <= k2 < kw ==> !bit64(
                            occ,
                            #[trigger] step_square(s, dr as int, df as int, k2) as u64,
                        ));
                if kw >= k {
                    if blocked {
                        assert(bit64(
                            occ,
                            step_square(s, dr as int, df as int, k - 1 as int) as u64,
                        ));
                        assert(false);
                    } else {
                        lemma_steps_within(s, dr as int, df as int, k as int, kw);
                        assert(false);
                    }
                }
                assert(bit64(m, j));
            }
        }
    }
    m
}

/// The bishop attack set of `s` with occupancy `occ`: diagonal rays that
/// stop at, and include, the first occupied square.
pub fn bishop_attacks(s: Square, occ: Bitboard) -> (m: Bitboard)
    requires
        square_ok(s),
    ensures
        forall|j: u64| j < 64 ==> #[trigger] bit64(m, j) == bishop_att_pred(s, occ, j),
{
    proof {
        lemma_bit_basics();
    }
    let m = slide_dir(s, occ, 1, 1) | slide_dir(s, occ, 1, -1) | slide_dir(s, occ, -1, 1)
        | slide_dir(s, occ, -1, -1);
    m
}

/// The rook attack set of `s` with occupancy `occ`.
pub fn rook_attacks(s: Square, occ: Bitboard) -> (m: Bitboard)
    requires
        square_ok(s),
    ensures
        forall|j: u64| j < 64 ==> #[trigger] bit64(m, j) == rook_att_pred(s, occ, j),
{
    proof {
        lemma_bit_basics();
    }
    let m = slide_dir(s, occ, 1, 0) | slide_dir(s, occ, -1, 0) | slide_dir(s, occ, 0, 1)
        | slide_dir(s, occ, 0, -1);
    m
}

/// The queen attack set of `s` with occupancy `occ`.
pub fn queen_attacks(s: Square, occ: Bitboard) -> (m: Bitboard)
    requires
        square_ok(s),
    ensures
        forall|j: u64| j < 64 ==> #[trigger] bit64(m, j) == queen_att_pred(s, occ, j),
{
    proof {
        lemma_bit_basics();
    }
    let m = rook_attacks(s, occ) | bishop_attacks(s, occ);
    m
}

/// The queen attack set is exactly the union of the rook and bishop
/// attack sets, for every square and every occupancy.
pub proof fn lemma_queen_is_rook_or_bishop(s: Square, occ: u64, t: u64)
    requires
        square_ok(s),
        t < 64,
    ensures
        queen_att_pred(s, occ, t) == (rook_att_pred(s, occ, t) || bishop_att_pred(s, occ, t)),
{
}

pub open spec fn sign(a: int) -> int {
    if a > 0 {
        1
    } else if a < 0 {
        -1
    } else {
        0
    }
}

/// The rank component of the direction from `s1` toward `s2`.
pub open spec fn dir_rank(s1: Square, s2: Square) -> int {
    sign(rank_of(s2) - rank_of(s1))
}

/// The file component of the direction from `s1` toward `s2`.
pub open spec fn dir_file(s1: Square, s2: Square) -> int {
    sign(file_of(s2) - file_of(s1))
}

/// Two distinct squares on a common queen line: same rank, same file, or
/// same diagonal.
pub open spec fn collinear(s1: Square, s2: Square) -> bool {
    let rd = rank_of(s2) - rank_of(s1);
    let fd = file_of(s2) - file_of(s1);
    s1 < 64 && s2 < 64 && s1 != s2 && (rd == 0 || fd == 0 || rd == fd || rd == -fd)
}

/// Square `t` lies strictly between `s1` and `s2` on their common line.
pub open spec fn between_pred(s1: Square, s2: Square, t: u64) -> bool {
    collinear(s1, s2) && exists|k: int|
        1 <= k < chebyshev(s1, s2) && t == #[trigger] step_square(
            s1,
            dir_rank(s1, s2),
            dir_file(s1, s2),
            k,
        )
}

/// Square `t` lies on the full line through `s1` and `s2` (endpoints
/// included, extended to the board edges); only defined to be non-empty
/// when the two squares share a queen line.
pub open spec fn ray_pred(s1: Square, s2: Square, t: u64) -> bool {
    collinear(s1, s2) && exists|k: int|
        #[trigger] step_on_board(s1, dir_rank(s1, s2), dir_file(s1, s2), k) && t == step_square(
            s1,
            dir_rank(s1, s2),
            dir_file(s1, s2),
            k,
        )
}

/// Walking `chebyshev(s1, s2)` steps from `s1` toward `s2` reaches `s2`.
proof fn lemma_reach(s1: Square, s2: Square)
    requires
        collinear(s1, s2),
    ensures
        1 <= chebyshev(s1, s2) <= 7,
        step_rank(s1, dir_rank(s1, s2), chebyshev(s1, s2)) == rank_of(s2),
        step_file(s1, dir_file(s1, s2), chebyshev(s1, s2)) == file_of(s2),
        step_on_board(s1, dir_rank(s1, s2), dir_file(s1, s2), chebyshev(s1, s2)),
        step_square(s1, dir_rank(s1, s2), dir_file(s1, s2), chebyshev(s1, s2)) == s2,
        !(dir_rank(s1, s2) == 0 && dir_file(s1, s2) == 0),
{
    let n = chebyshev(s1, s2);
    lemma_unit_mul(n, dir_rank(s1, s2));
    lemma_unit_mul(n, dir_file(s1, s2));
}

/// Any on-board step along a non-trivial direction is at most 7 away.
proof fn lemma_step_bound(s: Square, dr: int, df: int, k: int)
    requires
        square_ok(s),
        -1 <= dr <= 1,
        -1 <= df <= 1,
        !(dr == 0 && df == 0),
        step_on_board(s, dr, df, k),
    ensures
        -7 <= k <= 7,
{
    lemma_unit_mul(k, dr);
    lemma_unit_mul(k, df);
}

/// Distinct on-board coordinates make distinct squares.
proof fn lemma_square_coords(r1: int, f1: int, r2: int, f2: int)
    requires
        coords_ok(r1, f1),
        coords_ok(r2, f2),
        r1 * 8 + f1 == r2 * 8 + f2,
    ensures
        r1 == r2 && f1 == f2,
{
}

/// The set of squares strictly between `s1` and `s2` on their common
/// queen line, or empty when they do not share one.
pub fn between_mask(s1: Square, s2: Square) -> (m: Bitboard)
    requires
        square_ok(s1),
        square_ok(s2),
    ensures
        forall|j: u64| j < 64 ==> #[trigger] bit64(m, j) == between_pred(s1, s2, j),
{
    proof {
        lemma_bit_basics();
    }
    let r1: i16 = (s1 / 8) as i16;
    let f1: i16 = (s1 % 8) as i16;
    let r2: i16 = (s2 / 8) as i16;
    let f2: i16 = (s2 % 8) as i16;
    let rd: i16 = r2 - r1;
    let fd: i16 = f2 - f1;
    if s1 == s2 || !(rd == 0 || fd == 0 || rd == fd || rd == -fd) {
        return 0;
    }
    let dr: i16 = if rd > 0 {
        1
    } else if rd < 0 {
        -1
    } else {
        0
    };
    let df: i16 = if fd > 0 {
        1
    } else if fd < 0 {
        -1
    } else {
        0
    };
    let n = crate::bitboard::dist(s1, s2);
    proof {
        lemma_reach(s1, s2);
    }
    let mut m: u64 = 0;
    let mut k: u8 = 1;
    let mut r: i16 = r1 + dr;
    let mut f: i16 = f1 + df;
    while k < n
        invariant
            square_ok(s1),
            square_ok(s2),
            collinear(s1, s2),
            dr == dir_rank(s1, s2),
            df == dir_file(s1, s2),
            n == chebyshev(s1, s2),
            1 <= k <= n <= 7,
            r == step_rank(s1, dr as int, k as int),
            f == step_file(s1, df as int, k as int),
            forall|j: u64|
                j < 64 ==> (#[trigger] bit64(m, j) <==> (exists|k2: int|
                    1 <= k2 < k && j == #[trigger] step_square(s1, dr as int, df as int, k2))),
        decreases n - k,
    {
        proof {
            lemma_bit_basics();
            lemma_unit_mul(k as int, dr as int);
            lemma_unit_mul(k as int, df as int);
            lemma_steps_within(s1, dr as int, df as int, k as int, n as int);
        }
        let cur: u8 = (r * 8 + f) as u8;
        assert(cur == step_square(s1, dr as int, df as int, k as int));
        m = m | (1u64 << (cur as u64));
        r = r + dr;
        f = f + df;
        k = k + 1;
    }
    m
}

/// The full line through `s1` and `s2`, both endpoints included and
/// extended to the board edges, or empty when they share no queen line.
pub fn ray_mask(s1: Square, s2: Square) -> (m: Bitboard)
    requires
        square_ok(s1),
        square_ok(s2),
    ensures
        forall|j: u64| j < 64 ==> #[trigger] bit64(m, j) == ray_pred(s1, s2, j),
{
    proof {
        lemma_bit_basics();
    }
    let r1: i16 = (s1 / 8) as i16;
    let f1: i16 = (s1 % 8) as i16;
    let r2: i16 = (s2 / 8) as i16;
    let f2: i16 = (s2 % 8) as i16;
    let rd: i16 = r2 - r1;
    let fd: i16 = f2 - f1;
    if s1 == s2 || !(rd == 0 || fd == 0 || rd == fd || rd == -fd) {
        proof {
            if exists|j: u64| j < 64 && ray_pred(s1, s2, j) {
                assert(collinear(s1, s2));
            }
        }
        return 0;
    }
    let dr: i16 = if rd > 0 {
        1
    } else if rd < 0 {
        -1
    } else {
        0
    };
    let df: i16 = if fd > 0 {
        1
    } else if fd < 0 {
        -1
    } else {
        0
    };
    let mut m: u64 = 0;
    let mut k: i16 = -7;
    let mut r: i16 = r1 - 7 * dr;
    let mut f: i16 = f1 - 7 * df;
    while k <= 7
        invariant
            square_ok(s1),
            square_ok(s2),
            collinear(s1, s2),
            dr == dir_rank(s1, s2),
            df == dir_file(s1, s2),
            -7 <= k <= 8,
            r == step_rank(s1, dr as int, k as int),
            f == step_file(s1, df as int, k as int),
            forall|j: u64|
                j < 64 ==> (#[trigger] bit64(m, j) <==> (exists|k2: int|
                    -7 <= k2 < k && step_on_board(s1, dr as int, df as int, k2) && j == #[trigger]
                    step_square(s1, dr as int, df as int, k2))),
        decreases 8 - k,
    {
        proof {
            lemma_bit_basics();
            lemma_unit_mul(k as int, dr as int);
            lemma_unit_mul(k as int, df as int);
        }
        if 0 <= r && r < 8 && 0 <= f && f < 8 {
            let cur: u8 = (r * 8 + f) as u8;
            assert(cur == step_square(s1, dr as int, df as int, k as int));
            m = m | (1u64 << (cur as u64));
        }
        r = r + dr;
        f = f + df;
        k = k + 1;
    }
    proof {
        assert forall|j: u64| j < 64 implies #[trigger] bit64(m, j) == ray_pred(s1, s2, j) by {
            if ray_pred(s1, s2, j) {
                let kw = choose|kw: int|
                    #[trigger] step_on_board(s1, dr as int, df as int, kw) && j == step_square(
                        s1,
                        dr as int,
                        df as int,
                        kw,
                    );
                lemma_reach(s1, s2);
                lemma_step_bound(s1, dr as int, df as int, kw);
                assert(bit64(m, j));
            }
        }
    }
    m
}

/// The between set is symmetric in its endpoints.
pub proof fn lemma_between_sym(s1: Square, s2: Square, t: u64)
    requires
        square_ok(s1),
        square_ok(s2),
        t < 64,
    ensures
        between_pred(s1, s2, t) == between_pred(s2, s1, t),
{
    if between_pred(s1, s2, t) {
        lemma_between_sym_one(s1, s2, t);
    }
    if between_pred(s2, s1, t) {
        lemma_between_sym_one(s2, s1, t);
    }
}

proof fn lemma_between_sym_one(s1: Square, s2: Square, t: u64)
    requires
        square_ok(s1),
        square_ok(s2),
        t < 64,
        between_pred(s1, s2, t),
    ensures
        between_pred(s2, s1, t),
{
    let n = chebyshev(s1, s2);
    let dr = dir_rank(s1, s2);
    let df = dir_file(s1, s2);
    lemma_reach(s1, s2);
    lemma_reach(s2, s1);
    let k = choose|k: int| 1 <= k < n && t == #[trigger] step_square(s1, dr, df, k);
    lemma_unit_mul(k, dr);
    lemma_unit_mul(k, df);
    lemma_unit_mul(n, dr);
    lemma_unit_mul(n, df);
    lemma_unit_mul(n - k, dir_rank(s2, s1));
    lemma_unit_mul(n - k, dir_file(s2, s1));
    assert(dir_rank(s2, s1) == -dr && dir_file(s2, s1) == -df);
    assert(t == step_square(s2, dir_rank(s2, s1), dir_file(s2, s1), n - k));
}

/// The ray through two squares is symmetric in its endpoints.
pub proof fn lemma_ray_sym(s1: Square, s2: Square, t: u64)
    requires
        square_ok(s1),
        square_ok(s2),
        t < 64,
    ensures
        ray_pred(s1, s2, t) == ray_pred(s2, s1, t),
{
    if ray_pred(s1, s2, t) {
        lemma_ray_sym_one(s1, s2, t);
    }
    if ray_pred(s2, s1, t) {
        lemma_ray_sym_one(s2, s1, t);
    }
}

proof fn lemma_ray_sym_one(s1: Square, s2: Square, t: u64)
    requires
        square_ok(s1),
        square_ok(s2),
        t < 64,
        ray_pred(s1, s2, t),
    ensures
        ray_pred(s2, s1, t),
{
    let n = chebyshev(s1, s2);
    let dr = dir_rank(s1, s2);
    let df = dir_file(s1, s2);
    lemma_reach(s1, s2);
    lemma_reach(s2, s1);
    let k = choose|k: int| #[trigger] step_on_board(s1, dr, df, k) && t == step_square(s1, dr, df, k);
    lemma_unit_mul(k, dr);
    lemma_unit_mul(k, df);
    lemma_unit_mul(n, dr);
    lemma_unit_mul(n, df);
    lemma_unit_mul(n - k, dir_rank(s2, s1));
    lemma_unit_mul(n - k, dir_file(s2, s1));
    assert(dir_rank(s2, s1) == -dr && dir_file(s2, s1) == -df);
    assert(step_on_board(s2, dir_rank(s2, s1), dir_file(s2, s1), n - k) && t == step_square(
        s2,
        dir_rank(s2, s1),
        dir_file(s2, s1),
        n - k,
    ));
}

/// Every square strictly between two squares lies on their ray, and
/// neither endpoint lies strictly between them.
pub proof fn lemma_between_in_ray(s1: Square, s2: Square, t: u64)
    requires
        square_ok(s1),
        square_ok(s2),
        t < 64,
    ensures
        between_pred(s1, s2, t) ==> ray_pred(s1, s2, t),
        !between_pred(s1, s2, s1 as u64),
        !between_pred(s1, s2, s2 as u64),
{
    let n = chebyshev(s1, s2);
    let dr = dir_rank(s1, s2);
    let df = dir_file(s1, s2);
    if between_pred(s1, s2, t) {
        lemma_reach(s1, s2);
        let k = choose|k: int| 1 <= k < n && t == #[trigger] step_square(s1, dr, df, k);
        lemma_steps_within(s1, dr, df, k, n);
        assert(step_on_board(s1, dr, df, k) && t == step_square(s1, dr, df, k));
    }
    if between_pred(s1, s2, s1 as u64) {
        lemma_reach(s1, s2);
        let k = choose|k: int| 1 <= k < n && s1 as u64 == #[trigger] step_square(s1, dr, df, k);
        lemma_steps_within(s1, dr, df, k, n);
        lemma_square_coords(step_rank(s1, dr, k), step_file(s1, df, k), rank_of(s1) as int, file_of(s1) as int);
        lemma_unit_mul(k, dr);
        lemma_unit_mul(k, df);
        assert(false);
    }
    if between_pred(s1, s2, s2 as u64) {
        lemma_reach(s1, s2);
        let k = choose|k: int| 1 <= k < n && s2 as u64 == #[trigger] step_square(s1, dr, df, k);
        lemma_steps_within(s1, dr, df, k, n);
        lemma_square_coords(step_rank(s1, dr, k), step_file(s1, df, k), rank_of(s2) as int, file_of(s2) as int);
        lemma_unit_mul(k, dr);
        lemma_unit_mul(k, df);
        lemma_unit_mul(n, dr);
        lemma_unit_mul(n, df);
        assert(false);
    }
}


/// The inner part of a slider's empty-board rays: the board edges
/// perpendicular to each ray are cut, since a blocker there cannot
/// change any attack set.
pub open spec fn magic_mask_pred(s: Square, bishop: bool, j: u64) -> bool {
    (if bishop {
        bishop_att_pred(s, 0, j)
    } else {
        rook_att_pred(s, 0, j)
    }) && !((rank_of(j as u8) == 0 || rank_of(j as u8) == 7) && rank_of(j as u8) != rank_of(s))
        && !((file_of(j as u8) == 0 || file_of(j as u8) == 7) && file_of(j as u8) != file_of(s))
}

/// Along one direction, every square strictly before an on-board step
/// carries blocker information: it lies inside the magic mask.
proof fn lemma_interior_step_in_mask(s: Square, bishop: bool, dr: int, df: int, k: int, kmax: int)
    requires
        square_ok(s),
        -1 <= dr <= 1,
        -1 <= df <= 1,
        !(dr == 0 && df == 0),
        (bishop ==> dr != 0 && df != 0),
        (!bishop ==> dr == 0 || df == 0),
        1 <= k < kmax <= 7,
        step_on_board(s, dr, df, kmax),
    ensures
        magic_mask_pred(s, bishop, step_square(s, dr, df, k) as u64),
        step_square(s, dr, df, k) < 64,
{
    lemma_steps_within(s, dr, df, k, kmax);
    lemma_unit_mul(k, dr);
    lemma_unit_mul(k, df);
    lemma_unit_mul(kmax, dr);
    lemma_unit_mul(kmax, df);
    let t = step_square(s, dr, df, k) as u64;
    assert(rank_of(t as u8) == step_rank(s, dr, k) && file_of(t as u8) == step_file(s, df, k));
    crate::bitboard::lemma_bit_basics();
    assert(forall|k3: int| 1 <= k3 < k ==> !bit64(0, #[trigger] step_square(s, dr, df, k3) as u64));
    assert(dir_att_pred(s, 0, dr, df, t));
}

/// Masking the occupancy to the magic mask changes no attack set along
/// one direction.
proof fn lemma_dir_att_occ_masked(s: Square, bishop: bool, occ: u64, mv: u64, dr: int, df: int)
    requires
        square_ok(s),
        -1 <= dr <= 1,
        -1 <= df <= 1,
        !(dr == 0 && df == 0),
        (bishop ==> dr != 0 && df != 0),
        (!bishop ==> dr == 0 || df == 0),
        forall|j: u64| j < 64 ==> #[trigger] bit64(mv, j) == magic_mask_pred(s, bishop, j),
    ensures
        forall|t: u64|
            t < 64 ==> #[trigger] dir_att_pred(s, occ, dr, df, t) == dir_att_pred(
                s,
                occ & mv,
                dr,
                df,
                t,
            ),
{
    crate::bitboard::lemma_bit_basics();
    assert forall|t: u64| t < 64 implies #[trigger] dir_att_pred(s, occ, dr, df, t)
        == dir_att_pred(s, occ & mv, dr, df, t) by {
        if dir_att_pred(s, occ, dr, df, t) {
            let k = choose|k: int|
                1 <= k <= 7 && #[trigger] step_on_board(s, dr, df, k) && t == step_square(
                    s,
                    dr,
                    df,
                    k,
                ) && (forall|k2: int|
                    1 <= k2 < k ==> !bit64(occ, #[trigger] step_square(s, dr, df, k2) as u64));
            assert forall|k2: int| 1 <= k2 < k implies !bit64(
                occ & mv,
                #[trigger] step_square(s, dr, df, k2) as u64,
            ) by {
                lemma_steps_within(s, dr, df, k2, k);
                lemma_unit_mul(k2, dr);
                lemma_unit_mul(k2, df);
                assert(0 <= step_square(s, dr, df, k2) < 64);
                assert(!bit64(occ, step_square(s, dr, df, k2) as u64));
            }
            assert(dir_att_pred(s, occ & mv, dr, df, t));
        }
        if dir_att_pred(s, occ & mv, dr, df, t) {
            let k = choose|k: int|
                1 <= k <= 7 && #[trigger] step_on_board(s, dr, df, k) && t == step_square(
                    s,
                    dr,
                    df,
                    k,
                ) && (forall|k2: int|
                    1 <= k2 < k ==> !bit64(occ & mv, #[trigger] step_square(s, dr, df, k2) as u64));
            assert forall|k2: int| 1 <= k2 < k implies !bit64(
                occ,
                #[trigger] step_square(s, dr, df, k2) as u64,
            ) by {
                lemma_steps_within(s, dr, df, k2, k);
                lemma_unit_mul(k2, dr);
                lemma_unit_mul(k2, df);
                assert(0 <= step_square(s, dr, df, k2) < 64);
                lemma_interior_step_in_mask(s, bishop, dr, df, k2, k);
                assert(bit64(mv, step_square(s, dr, df, k2) as u64));
                assert(!bit64(occ & mv, step_square(s, dr, df, k2) as u64));
            }
            assert(dir_att_pred(s, occ, dr, df, t));
        }
    }
}

/// Masking the occupancy to the magic mask leaves the bishop attack set
/// unchanged: only squares inside the mask carry blocker information.
pub proof fn lemma_bishop_att_occ_masked(s: Square, occ: u64, mv: u64)
    requires
        square_ok(s),
        forall|j: u64| j < 64 ==> #[trigger] bit64(mv, j) == magic_mask_pred(s, true, j),
    ensures
        forall|t: u64|
            t < 64 ==> #[trigger] bishop_att_pred(s, occ, t) == bishop_att_pred(s, occ & mv, t),
{
    lemma_dir_att_occ_masked(s, true, occ, mv, 1, 1);
    lemma_dir_att_occ_masked(s, true, occ, mv, 1, -1);
    lemma_dir_att_occ_masked(s, true, occ, mv, -1, 1);
    lemma_dir_att_occ_masked(s, true, occ, mv, -1, -1);
}

/// Masking the occupancy to the magic mask leaves the rook attack set
/// unchanged.
pub proof fn lemma_rook_att_occ_masked(s: Square, occ: u64, mv: u64)
    requires
        square_ok(s),
        forall|j: u64| j < 64 ==> #[trigger] bit64(mv, j) == magic_mask_pred(s, false, j),
    ensures
        forall|t: u64|
            t < 64 ==> #[trigger] rook_att_pred(s, occ, t) == rook_att_pred(s, occ & mv, t),
{
    lemma_dir_att_occ_masked(s, false, occ, mv, 1, 0);
    lemma_dir_att_occ_masked(s, false, occ, mv, -1, 0);
    lemma_dir_att_occ_masked(s, false, occ, mv, 0, 1);
    lemma_dir_att_occ_masked(s, false, occ, mv, 0, -1);
}


/// One direction of attack reversed: if `t` is reached from `s`, then
/// `s` is reached from `t` along the opposite direction over the same
/// empty interior squares.
proof fn lemma_dir_att_sym(s: Square, t: Square, occ: u64, dr: int, df: int)
    requires
        square_ok(s),
        square_ok(t),
        -1 <= dr <= 1,
        -1 <= df <= 1,
        !(dr == 0 && df == 0),
        dir_att_pred(s, occ, dr, df, t as u64),
    ensures
        dir_att_pred(t, occ, -dr, -df, s as u64),
{
    let k = choose|k: int|
        1 <= k <= 7 && #[trigger] step_on_board(s, dr, df, k) && t as u64 == step_square(
            s,
            dr,
            df,
            k,
        ) && (forall|k2: int|
            1 <= k2 < k ==> !bit64(occ, #[trigger] step_square(s, dr, df, k2) as u64));
    lemma_unit_mul(k, dr);
    lemma_unit_mul(k, df);
    assert(rank_of(t) == step_rank(s, dr, k) && file_of(t) == step_file(s, df, k)) by {
        lemma_square_coords(
            step_rank(s, dr, k),
            step_file(s, df, k),
            rank_of(t) as int,
            file_of(t) as int,
        );
    }
    lemma_unit_mul(k, -dr);
    lemma_unit_mul(k, -df);
    assert(step_on_board(t, -dr, -df, k) && s as u64 == step_square(t, -dr, -df, k));
    assert forall|j: int| 1 <= j < k implies !bit64(
        occ,
        #[trigger] step_square(t, -dr, -df, j) as u64,
    ) by {
        lemma_unit_mul(j, -dr);
        lemma_unit_mul(j, -df);
        lemma_unit_mul(k - j, dr);
        lemma_unit_mul(k - j, df);
        assert(step_square(t, -dr, -df, j) == step_square(s, dr, df, k - j));
    }
    assert(dir_att_pred(t, occ, -dr, -df, s as u64));
}

/// Bishop attacks are symmetric: `t` is attacked from `s` exactly when
/// `s` is attacked from `t` under the same occupancy.
pub proof fn lemma_bishop_att_sym(s: Square, t: Square, occ: u64)
    requires
        square_ok(s),
        square_ok(t),
    ensures
        bishop_att_pred(s, occ, t as u64) == bishop_att_pred(t, occ, s as u64),
{
    if dir_att_pred(s, occ, 1, 1, t as u64) {
        lemma_dir_att_sym(s, t, occ, 1, 1);
    }
    if dir_att_pred(s, occ, 1, -1, t as u64) {
        lemma_dir_att_sym(s, t, occ, 1, -1);
    }
    if dir_att_pred(s, occ, -1, 1, t as u64) {
        lemma_dir_att_sym(s, t, occ, -1, 1);
    }
    if dir_att_pred(s, occ, -1, -1, t as u64) {
        lemma_dir_att_sym(s, t, occ, -1, -1);
    }
    if dir_att_pred(t, occ, 1, 1, s as u64) {
        lemma_dir_att_sym(t, s, occ, 1, 1);
    }
    if dir_att_pred(t, occ, 1, -1, s as u64) {
        lemma_dir_att_sym(t, s, occ, 1, -1);
    }
    if dir_att_pred(t, occ, -1, 1, s as u64) {
        lemma_dir_att_sym(t, s, occ, -1, 1);
    }
    if dir_att_pred(t, occ, -1, -1, s as u64) {
        lemma_dir_att_sym(t, s, occ, -1, -1);
    }
}

/// Rook attacks are symmetric under the same occupancy.
pub proof fn lemma_rook_att_sym(s: Square, t: Square, occ: u64)
    requires
        square_ok(s),
        square_ok(t),
    ensures
        rook_att_pred(s, occ, t as u64) == rook_att_pred(t, occ, s as u64),
{
    if dir_att_pred(s, occ, 1, 0, t as u64) {
        lemma_dir_att_sym(s, t, occ, 1, 0);
    }
    if dir_att_pred(s, occ, -1, 0, t as u64) {
        lemma_dir_att_sym(s, t, occ, -1, 0);
    }
    if dir_att_pred(s, occ, 0, 1, t as u64) {
        lemma_dir_att_sym(s, t, occ, 0, 1);
    }
    if dir_att_pred(s, occ, 0, -1, t as u64) {
        lemma_dir_att_sym(s, t, occ, 0, -1);
    }
    if dir_att_pred(t, occ, 1, 0, s as u64) {
        lemma_dir_att_sym(t, s, occ, 1, 0);
    }
    if dir_att_pred(t, occ, -1, 0, s as u64) {
        lemma_dir_att_sym(t, s, occ, -1, 0);
    }
    if dir_att_pred(t, occ, 0, 1, s as u64) {
        lemma_dir_att_sym(t, s, occ, 0, 1);
    }
    if dir_att_pred(t, occ, 0, -1, s as u64) {
        lemma_dir_att_sym(t, s, occ, 0, -1);
    }
}

/// The sliding attack set of a bishop on `s`: same as `bishop_attacks`;
/// kept under its own name as the reference generator for the magic
/// tables.
pub fn bishop_slide_mask(s: Square, occ: Bitboard) -> (m: Bitboard)
    requires
        square_ok(s),
    ensures
        forall|j: u64| j < 64 ==> #[trigger] bit64(m, j) == bishop_att_pred(s, occ, j),
{
    bishop_attacks(s, occ)
}

/// The sliding attack set of a rook on `s`, as the reference generator
/// for the magic tables.
pub fn rook_slide_mask(s: Square, occ: Bitboard) -> (m: Bitboard)
    requires
        square_ok(s),
    ensures
        forall|j: u64| j < 64 ==> #[trigger] bit64(m, j) == rook_att_pred(s, occ, j),
{
    rook_attacks(s, occ)
}

} // verus!
