//! Board geometry: bitboard strings, attack sets, masks, between/ray,
//! and the magic tables against the sliding reference.

use daydreamer::bitboard::{
    bb_from_str, bb_to_str, king_attacks, knight_attacks, lsb, pawn_attacks, pop_square,
    black_pawn_attacks, white_pawn_attacks, in_front_mask, neighbor_mask, outpost_mask,
    passer_mask, squares_of_color, king_shield, king_halo, relative_rank_bb, shift, bb,
};
use daydreamer::board::{Color, File, Rank};
use daydreamer::magics::build_tables;
use daydreamer::sliders::{
    between_mask, bishop_attacks, bishop_slide_mask, queen_attacks, ray_mask, rook_attacks,
};

fn bbs(squares: &[u8]) -> u64 {
    let mut b = 0u64;
    for s in squares {
        b |= 1u64 << s;
    }
    b
}

#[test]
fn test_bb_str() {
    let cases: [(u64, &str); 3] = [
        (
            0,
            "\n........\n........\n........\n........\n........\n........\n........\n........\n",
        ),
        (
            bbs(&[28, 36, 27, 35]),
            "\n........\n........\n........\n...xx...\n...xx...\n........\n........\n........\n",
        ),
        (
            bbs(&[0, 9, 56, 49]),
            "\nx.......\n.x......\n........\n........\n........\n........\n.x......\nx.......\n",
        ),
    ];
    for (x, s) in cases.iter() {
        assert_eq!(*x, bb_from_str(s));
        assert_eq!(*s, bb_to_str(*x).as_str());
    }
}

#[test]
fn test_bb_str_round_trip_many() {
    let samples: [u64; 6] = [
        0,
        u64::MAX,
        0x1234_5678_9abc_def0,
        1,
        1 << 63,
        0x0101_0101_0101_0101,
    ];
    for b in samples.iter() {
        let s = bb_to_str(*b);
        assert_eq!(*b, bb_from_str(s.as_str()));
        let s2 = bb_to_str(bb_from_str(s.as_str()));
        assert_eq!(s, s2);
    }
}

#[test]
fn test_pop_square() {
    let cases: [(u64, u8, u64); 6] = [
        (1, 0, 0),
        (2, 1, 0),
        (0xff, 0, 0xfe),
        (1u64 << 63, 63, 0),
        (1, 0, 0),
        (bbs(&[28, 36, 27, 35]), 27, bbs(&[28, 36, 35])),
    ];
    for (x0, want, popped) in cases.iter() {
        let mut x = *x0;
        assert_eq!(*want, lsb(x));
        let got = pop_square(&mut x);
        assert_eq!(*want, got);
        assert_eq!(*popped, x);
    }
}

#[test]
fn test_king_attacks() {
    assert_eq!(king_attacks(0), bbs(&[1, 8, 9]));
    assert_eq!(king_attacks(45), bbs(&[36, 44, 52, 37, 53, 38, 46, 54]));
}

#[test]
fn test_knight_attacks() {
    assert_eq!(knight_attacks(0), bbs(&[17, 10]));
    assert_eq!(knight_attacks(45), bbs(&[35, 51, 28, 60, 30, 62, 39, 55]));
}

#[test]
fn test_pawn_attacks() {
    assert_eq!(white_pawn_attacks(9), bbs(&[16, 18]));
    assert_eq!(black_pawn_attacks(9), bbs(&[0, 2]));
    assert_eq!(white_pawn_attacks(31), bbs(&[38]));
    assert_eq!(black_pawn_attacks(31), bbs(&[22]));
    assert_eq!(pawn_attacks(Color::White, 9), white_pawn_attacks(9));
    assert_eq!(pawn_attacks(Color::Black, 9), black_pawn_attacks(9));
}

#[test]
fn test_bishop_attacks() {
    assert_eq!(
        bishop_attacks(0, bbs(&[0, 56, 17, 41, 42, 22, 7])),
        bbs(&[9, 18, 27, 36, 45, 54, 63])
    );
    assert_eq!(
        bishop_attacks(45, bbs(&[17, 10, 18, 42, 35, 51, 37])),
        bbs(&[18, 27, 59, 36, 52, 38, 54, 31, 63])
    );
    assert_eq!(bishop_slide_mask(0, 0), bishop_attacks(0, 0));
}

#[test]
fn test_rook_attacks() {
    assert_eq!(
        rook_attacks(0, bbs(&[0, 40, 56, 17, 41, 42, 22, 7])),
        bbs(&[8, 16, 24, 32, 40, 1, 2, 3, 4, 5, 6, 7])
    );
    assert_eq!(
        rook_attacks(45, bbs(&[17, 10, 18, 42, 35, 51, 45])),
        bbs(&[42, 43, 44, 46, 47, 5, 13, 21, 29, 37, 53, 61])
    );
}

#[test]
fn test_queen_attacks() {
    let occ = bb_from_str(
        "\nx......x\n........\nxxx.....\n........\n........\n.x....x.\n........\nx......x\n",
    );
    let want = bb_from_str(
        "\n.......x\n......x.\nx....x..\nx...x...\nx..x....\nx.x.....\nxx......\n.xxxxxxx\n",
    );
    assert_eq!(queen_attacks(0, occ), want);

    let occ2 = bb_from_str(
        "\n........\n...x....\n..x..x..\n...x....\n........\n.xx.....\n..x.....\n........\n",
    );
    let want2 = bb_from_str(
        "\n...x.x.x\n....xxx.\n..xxx.xx\n....xxx.\n...x.x.x\n..x..x..\n.....x..\n.....x..\n",
    );
    assert_eq!(queen_attacks(45, occ2), want2);
}

#[test]
fn test_queen_is_rook_or_bishop_union() {
    let occs: [u64; 4] = [0, 0xffff_0000_0000_ffff, 0x1234_5678_9abc_def0, u64::MAX];
    for s in [0u8, 7, 28, 45, 63] {
        for occ in occs.iter() {
            assert_eq!(
                queen_attacks(s, *occ),
                rook_attacks(s, *occ) | bishop_attacks(s, *occ)
            );
        }
    }
}

#[test]
fn test_directional_bitboards() {
    assert_eq!(between_mask(18, 20), bbs(&[19]));
    assert_eq!(between_mask(20, 18), bbs(&[19]));
    assert_eq!(ray_mask(18, 20), 0xffu64 << 16);
    assert_eq!(ray_mask(20, 18), 0xffu64 << 16);
    assert_eq!(between_mask(11, 38), bbs(&[20, 29]));
    assert_eq!(between_mask(38, 11), bbs(&[20, 29]));
    assert_eq!(ray_mask(11, 38), bbs(&[2, 11, 20, 29, 38, 47]));
    assert_eq!(ray_mask(38, 11), bbs(&[2, 11, 20, 29, 38, 47]));
    assert_eq!(between_mask(0, 17), 0);
    assert_eq!(between_mask(17, 0), 0);
    assert_eq!(ray_mask(0, 17), 0);
    assert_eq!(ray_mask(17, 0), 0);
}

#[test]
fn test_pawn_masks() {
    assert_eq!(passer_mask(Color::White, 32), bbs(&[40, 41, 48, 49, 56, 57]));
    assert_eq!(
        passer_mask(Color::Black, 32),
        bbs(&[24, 25, 16, 17, 8, 9, 0, 1])
    );
    assert_eq!(passer_mask(Color::White, 45), bbs(&[52, 53, 54, 60, 61, 62]));
    assert_eq!(
        passer_mask(Color::Black, 45),
        bbs(&[36, 37, 38, 28, 29, 30, 20, 21, 22, 12, 13, 14, 4, 5, 6])
    );
    assert_eq!(in_front_mask(Color::White, 32), bbs(&[40, 48, 56]));
    assert_eq!(in_front_mask(Color::Black, 32), bbs(&[24, 16, 8, 0]));
    assert_eq!(in_front_mask(Color::White, 53), bbs(&[61]));
    assert_eq!(
        in_front_mask(Color::Black, 53),
        bbs(&[45, 37, 29, 21, 13, 5])
    );
    assert_eq!(outpost_mask(Color::White, 32), bbs(&[41, 49, 57]));
    assert_eq!(outpost_mask(Color::Black, 32), bbs(&[25, 17, 9, 1]));
    assert_eq!(outpost_mask(Color::White, 45), bbs(&[52, 54, 60, 62]));
    assert_eq!(
        outpost_mask(Color::Black, 45),
        bbs(&[36, 38, 28, 30, 20, 22, 12, 14, 4, 6])
    );
}

#[test]
fn test_passer_shape() {
    // The outpost and in-front masks partition the passer mask.
    for c in [Color::White, Color::Black] {
        for s in [0u8, 9, 28, 32, 45, 54, 63] {
            assert_eq!(
                outpost_mask(c, s) | in_front_mask(c, s),
                passer_mask(c, s)
            );
            assert_eq!(
                in_front_mask(c, s) & neighbor_mask(File(s % 8)),
                0
            );
        }
    }
}

#[test]
fn test_color_masks() {
    let dark = bbs(&[
        0, 16, 32, 48, 9, 25, 41, 57, 2, 18, 34, 50, 11, 27, 43, 59, 4, 20, 36, 52, 13, 29, 45,
        61, 6, 22, 38, 54, 15, 31, 47, 63,
    ]);
    assert_eq!(squares_of_color(0), dark);
    assert_eq!(squares_of_color(28), u64::MAX ^ dark);
}

#[test]
fn test_rank_file_shift() {
    assert_eq!(bb(Rank(0)), 0xffu64);
    assert_eq!(bb(File(7)), 0x8080_8080_8080_8080u64);
    assert_eq!(relative_rank_bb(Color::Black, Rank(0)), 0xffu64 << 56);
    assert_eq!(shift(0xffu64, 8), 0xff00u64);
    assert_eq!(shift(1u64, 9), 1u64 << 9);
    assert_eq!(shift(1u64 << 7, 9), 0); // h-file clipped
    assert_eq!(shift(1u64 << 8, -8), 1);
}

#[test]
fn test_king_safety_masks() {
    // White king on e1 (4): shield is the ring plus the ring of e2.
    let shield = king_shield(Color::White, 4);
    assert_eq!(shield, king_attacks(4) | king_attacks(12));
    let halo = king_halo(28);
    assert_eq!(
        halo,
        king_attacks(28) | king_attacks(20) | king_attacks(36) | king_attacks(27) | king_attacks(29)
    );
}

#[test]
fn test_magic_tables_match_sliding_reference() {
    let t = build_tables(20230101, 19791211).expect("magic search must succeed");
    let occs: [u64; 5] = [
        0,
        u64::MAX,
        0x1234_5678_9abc_def0,
        0xffff_0000_0000_ffff,
        0x00ff_7e00_18f0_3c55,
    ];
    for s in 0u8..64 {
        for occ in occs.iter() {
            assert_eq!(t.magic_bishop_attacks(s, *occ), bishop_attacks(s, *occ));
            assert_eq!(t.magic_rook_attacks(s, *occ), rook_attacks(s, *occ));
            assert_eq!(t.magic_queen_attacks(s, *occ), queen_attacks(s, *occ));
        }
        assert_eq!(t.between(s, (s + 17) % 64, ), between_mask(s, (s + 17) % 64));
        assert_eq!(t.ray(s, (s + 9) % 64), ray_mask(s, (s + 9) % 64));
        assert_eq!(t.knight(s), knight_attacks(s));
        assert_eq!(t.king(s), king_attacks(s));
        assert_eq!(t.pawn(Color::White, s), white_pawn_attacks(s));
        assert_eq!(t.pawn(Color::Black, s), black_pawn_attacks(s));
    }
}

#[test]
fn test_magic_determinism() {
    // The same seeds give bit-identical magic numbers and attack tables.
    let a = build_tables(20230101, 19791211).expect("magic search must succeed");
    let b = build_tables(20230101, 19791211).expect("magic search must succeed");
    assert_eq!(a.bishop_magics, b.bishop_magics);
    assert_eq!(a.rook_magics, b.rook_magics);
    assert_eq!(a.bishop_att_tbl, b.bishop_att_tbl);
    assert_eq!(a.rook_att_tbl, b.rook_att_tbl);
    assert_eq!(a.bishop_masks, b.bishop_masks);
    assert_eq!(a.rook_masks, b.rook_masks);
}

#[test]
fn test_king_near_shield_mask() {
    // White king on e1: far shield = the e3-row ring part, pulled back
    // one rank toward the king.
    let near = daydreamer::bitboard::king_near_shield(Color::White, 4);
    let far = king_shield(Color::White, 4) ^ king_attacks(4) ^ (1u64 << 4);
    assert_eq!(near, far >> 8);
}
