//! The engine core: scores, time budgets, state transitions, positions,
//! draws, exchange evaluation, move generation, perft and full searches.

use daydreamer::movement::{move_to_str, Move, NO_MOVE};
use daydreamer::position::{from_fen, START_FEN};
use daydreamer::score::{is_mate_score, mate_in, mated_in, score_is_valid, DRAW_SCORE};
use daydreamer::search::{
    best_root_move, deepening_search, prepare_search, score_from_tt, score_to_tt, search,
    should_deepen_decision, stop_decision, watchdog_decision, EngineState, SearchConstraints,
    SearchData, WatchdogAction, MAX_PLY, PONDERING_STATE, SEARCHING_STATE, STOPPING_STATE,
    WAITING_STATE,
};
use daydreamer::transposition::Table;
use daydreamer::uci::{parse_command, parse_move, state_after_command, Command};
use daydreamer::board::Color;

fn engine() -> SearchData {
    SearchData::new().expect("attack tables must build")
}

fn engine_at(fen: &str) -> SearchData {
    let mut d = engine();
    d.pos = from_fen(fen).expect("well-formed test position");
    d
}

fn play(d: &mut SearchData, name: &str) {
    let m = parse_move(&d.pos, &d.tables, name).expect("legal move");
    d.pos.do_move(&d.tables, m);
}

fn run_depth(d: &mut SearchData, depth: usize) -> (Move, i32) {
    d.constraints.clear();
    d.constraints.depth_limit = depth;
    d.state.enter(SEARCHING_STATE);
    let has = prepare_search(d);
    assert!(has);
    deepening_search(d);
    d.state.enter(WAITING_STATE);
    let (best, _) = best_root_move(d);
    (best, d.root_moves[0].score)
}

#[test]
fn test_score_tt_round_trip() {
    let cases: [(i32, usize); 8] = [
        (31999, 5),
        (-31990, 3),
        (100, 7),
        (0, 0),
        (-31874, 127),
        (32767, 10),
        (-32767, 127),
        (31874, 0),
    ];
    for (s, p) in cases {
        assert_eq!(score_from_tt(score_to_tt(s, p), p), s);
    }
}

#[test]
fn test_mate_scores() {
    assert_eq!(mate_in(1), 31999);
    assert_eq!(mated_in(0), -32000);
    assert!(is_mate_score(31999));
    assert!(is_mate_score(-31950));
    assert!(!is_mate_score(100));
    assert!(score_is_valid(31999));
    assert!(!score_is_valid(-40000));
    assert_eq!(daydreamer::score::mate_distance_moves(31999), 1);
    assert_eq!(daydreamer::score::mate_distance_moves(31997), 2);
    assert_eq!(daydreamer::score::mate_distance_moves(-31998), -1);
}

#[test]
fn test_set_timer_increment_control() {
    let mut c = SearchConstraints::new();
    c.set_timer(Color::White, 60000, 50000, 1000, 900, 0, 0, 10);
    assert!(c.use_timer);
    assert_eq!(c.soft_limit, 1800);
    assert_eq!(c.hard_limit, 24000);
}

#[test]
fn test_set_timer_movetime_and_movestogo() {
    let mut c = SearchConstraints::new();
    c.set_timer(Color::Black, 0, 0, 0, 0, 100, 0, 10);
    assert_eq!(c.soft_limit, 90);
    assert_eq!(c.hard_limit, 90);
    let mut c2 = SearchConstraints::new();
    c2.set_timer(Color::White, 30000, 0, 0, 0, 0, 10, 10);
    assert_eq!(c2.soft_limit, 1800);
    assert_eq!(c2.hard_limit, 15000);
    let mut c3 = SearchConstraints::new();
    c3.set_timer(Color::White, 0, 0, 0, 0, 0, 0, 10);
    assert!(!c3.use_timer);
}

#[test]
fn test_engine_state_transitions() {
    let es = EngineState::new();
    assert_eq!(es.load(), WAITING_STATE);
    es.enter(SEARCHING_STATE);
    assert_eq!(es.load(), SEARCHING_STATE);
    let g1 = es.bump_generation();
    let g2 = es.bump_generation();
    assert_eq!(g2, g1 + 1);
    assert!(matches!(
        watchdog_decision(PONDERING_STATE, 1, 1),
        WatchdogAction::Resleep
    ));
    assert!(matches!(
        watchdog_decision(SEARCHING_STATE, 1, 2),
        WatchdogAction::Exit
    ));
    assert!(matches!(
        watchdog_decision(WAITING_STATE, 1, 1),
        WatchdogAction::Exit
    ));
    assert!(matches!(
        watchdog_decision(SEARCHING_STATE, 2, 2),
        WatchdogAction::Stop
    ));
    assert!(stop_decision(STOPPING_STATE, 0, u64::MAX, false));
    assert!(!stop_decision(PONDERING_STATE, 0, u64::MAX, false));
    assert!(stop_decision(SEARCHING_STATE, 10, 10, false));
    assert!(!stop_decision(SEARCHING_STATE, 10, 10, true));
    assert_eq!(state_after_command(SEARCHING_STATE, true, false), STOPPING_STATE);
    assert_eq!(state_after_command(PONDERING_STATE, false, true), SEARCHING_STATE);
    assert_eq!(state_after_command(WAITING_STATE, false, true), WAITING_STATE);
}

#[test]
fn test_should_deepen_decision() {
    assert!(!should_deepen_decision(MAX_PLY - 1, SEARCHING_STATE, false, false, 10, false, 0, 0));
    assert!(should_deepen_decision(3, PONDERING_STATE, true, false, 1, true, 100, 1));
    assert!(!should_deepen_decision(3, SEARCHING_STATE, true, false, 10, false, 0, 0));
    assert!(should_deepen_decision(3, SEARCHING_STATE, false, true, 1, true, 100, 1));
    assert!(!should_deepen_decision(3, SEARCHING_STATE, false, false, 2, false, 0, 0));
    assert!(should_deepen_decision(3, SEARCHING_STATE, false, false, 10, false, 0, 0));
    assert!(!should_deepen_decision(3, SEARCHING_STATE, false, false, 10, true, 200, 100));
    assert!(should_deepen_decision(3, SEARCHING_STATE, false, false, 10, true, 50, 100));
}

#[test]
fn test_transposition_table() {
    let mut t = Table::new(1 << 16);
    let h = 0x1234_5678_9abc_def0u64;
    t.put(h, 42, 8, 150, daydreamer::score::EXACT);
    let e = t.get(h).expect("stored entry");
    assert_eq!(e.m, 42);
    assert_eq!(e.score, 150);
    assert_eq!(e.depth, 8);
    assert_eq!(e.verifier, (h >> 48) as u16);
    // Same bucket, different verifier: treated as absent.
    assert!(t.get(h ^ (1u64 << 60)).is_none());
    t.clear();
    assert!(t.get(h).is_none());
}

#[test]
fn test_fen_round_trip_fields() {
    let p = from_fen(START_FEN).expect("start position");
    assert_eq!(p.stm, Color::White);
    assert_eq!(p.castling, 15);
    assert_eq!(p.ep, 64);
    assert_eq!(p.halfmove, 0);
    assert_eq!(p.fullmove, 1);
    assert_eq!(p.board[4], 6);
    assert_eq!(p.board[60], 14);
    assert!(from_fen("nonsense").is_none());
    let p2 = from_fen("rnbqkbnr/pppppppp/8/8/4P3/8/PPPP1PPP/RNBQKBNR b KQkq e3 0 1")
        .expect("position after a double push");
    assert_eq!(p2.ep, 20);
    assert_eq!(p2.stm, Color::Black);
}

#[test]
fn test_commands_parse() {
    assert!(matches!(parse_command("uci"), Command::Uci));
    assert!(matches!(parse_command("isready"), Command::IsReady));
    assert!(matches!(parse_command("ucinewgame"), Command::NewGame));
    assert!(matches!(parse_command("stop"), Command::Stop));
    assert!(matches!(parse_command("ponderhit"), Command::PonderHit));
    assert!(matches!(parse_command("quit"), Command::Quit));
    assert!(matches!(parse_command("gibberish"), Command::Unknown));
    match parse_command("go wtime 60000 btime 50000 winc 1000 binc 900 movestogo 10") {
        Command::Go { params } => {
            assert_eq!(params.wtime, 60000);
            assert_eq!(params.btime, 50000);
            assert_eq!(params.winc, 1000);
            assert_eq!(params.binc, 900);
            assert_eq!(params.movestogo, 10);
            assert!(!params.infinite);
        }
        _ => panic!("expected a go command"),
    }
    match parse_command("position startpos moves e2e4 e7e5") {
        Command::SetPosition { startpos, fen, moves } => {
            assert!(startpos);
            assert_eq!(fen.len(), 0);
            assert_eq!(moves.len(), 2);
            assert_eq!(moves[0].as_str(), "e2e4");
        }
        _ => panic!("expected a position command"),
    }
    match parse_command("position fen 4k3/8/4K3/8/8/8/8/4Q3 w - - 0 1") {
        Command::SetPosition { startpos, fen, .. } => {
            assert!(!startpos);
            assert_eq!(fen.as_str(), "4k3/8/4K3/8/8/8/8/4Q3 w - - 0 1");
        }
        _ => panic!("expected a position command"),
    }
}

#[test]
fn test_threefold_draw() {
    let mut d = engine();
    for name in ["g1f3", "g8f6", "f3g1", "f6g8", "g1f3", "g8f6", "f3g1", "f6g8"] {
        play(&mut d, name);
    }
    assert!(d.pos.is_draw());
    // Away from the root a drawn position scores as an exact draw.
    let r = search(&mut d, 1, -100, 100, 4);
    assert_eq!(r, DRAW_SCORE);
}

#[test]
fn test_static_exchange() {
    let d = engine_at("k7/8/3p4/2p5/8/8/8/2Q1K3 w - - 0 1");
    let m = parse_move(&d.pos, &d.tables, "c1c5").expect("queen takes pawn");
    let see = d.pos.static_exchange_eval(&d.tables, m);
    assert_eq!(see, -875);
    let d2 = engine_at("k7/8/8/2p5/3P4/8/8/4K3 w - - 0 1");
    let m2 = parse_move(&d2.pos, &d2.tables, "d4c5").expect("pawn takes pawn");
    assert_eq!(d2.pos.static_exchange_eval(&d2.tables, m2), 100);
}

#[test]
fn test_startpos_move_count() {
    let d = engine();
    let moves = daydreamer::movegen::legal_moves(&d.pos, &d.tables);
    assert_eq!(moves.len(), 20);
}

#[test]
fn test_perft_startpos() {
    let d = engine();
    let mut pos = daydreamer::position::clone_position(&d.pos);
    assert_eq!(daydreamer::search::perft(&mut pos, &d.tables, 1), 20);
    assert_eq!(daydreamer::search::perft(&mut pos, &d.tables, 2), 400);
    assert_eq!(daydreamer::search::perft(&mut pos, &d.tables, 3), 8902);
    assert_eq!(daydreamer::search::perft(&mut pos, &d.tables, 4), 197281);
}

#[test]
fn test_perft_kiwipete() {
    let d = engine_at("r3k2r/p1ppqpb1/bn2pnp1/3PN3/1p2P3/2N2Q1p/PPPBBPPP/R3K2R w KQkq - 0 1");
    let mut pos = daydreamer::position::clone_position(&d.pos);
    assert_eq!(daydreamer::search::perft(&mut pos, &d.tables, 1), 48);
    assert_eq!(daydreamer::search::perft(&mut pos, &d.tables, 2), 2039);
    assert_eq!(daydreamer::search::perft(&mut pos, &d.tables, 3), 97862);
}

#[test]
fn test_perft_endgame() {
    let d = engine_at("8/2p5/3p4/KP5r/1R3p1k/8/4P1P1/8 w - - 0 1");
    let mut pos = daydreamer::position::clone_position(&d.pos);
    assert_eq!(daydreamer::search::perft(&mut pos, &d.tables, 1), 14);
    assert_eq!(daydreamer::search::perft(&mut pos, &d.tables, 2), 191);
    assert_eq!(daydreamer::search::perft(&mut pos, &d.tables, 3), 2812);
    assert_eq!(daydreamer::search::perft(&mut pos, &d.tables, 4), 43238);
}

#[test]
fn test_perft_promotions() {
    let d = engine_at("r3k2r/Pppp1ppp/1b3nbN/nP6/BBP1P3/q4N2/Pp1P2PP/R2Q1RK1 w kq - 0 1");
    let mut pos = daydreamer::position::clone_position(&d.pos);
    assert_eq!(daydreamer::search::perft(&mut pos, &d.tables, 1), 6);
    assert_eq!(daydreamer::search::perft(&mut pos, &d.tables, 2), 264);
    assert_eq!(daydreamer::search::perft(&mut pos, &d.tables, 3), 9467);
}

#[test]
fn test_mate_in_one() {
    let mut d = engine_at("6k1/5ppp/8/8/8/8/5PPP/3R2K1 w - - 0 1");
    let (best, score) = run_depth(&mut d, 2);
    assert_ne!(best, NO_MOVE);
    assert_eq!(score, 31999);
    assert_eq!(move_to_str(best).as_str(), "d1d8");
    // The chosen move must actually deliver mate.
    d.pos.do_move(&d.tables, best);
    let replies = daydreamer::movegen::legal_moves(&d.pos, &d.tables);
    assert_eq!(replies.len(), 0);
    assert_ne!(d.pos.checkers(&d.tables), 0);
}

#[test]
fn test_mate_distance_monotonicity() {
    let mut d = engine_at("6k1/5ppp/8/8/8/8/5PPP/3R2K1 w - - 0 1");
    let (_, s2) = run_depth(&mut d, 2);
    let mut d4 = engine_at("6k1/5ppp/8/8/8/8/5PPP/3R2K1 w - - 0 1");
    let (_, s4) = run_depth(&mut d4, 4);
    assert!(is_mate_score(s2));
    assert!(s4 >= s2);
}

#[test]
fn test_null_move_soundness() {
    let mut with_null = engine_at("6k1/5ppp/8/8/8/8/5PPP/3R2K1 w - - 0 1");
    let (_, s_on) = run_depth(&mut with_null, 3);
    let mut without_null = engine_at("6k1/5ppp/8/8/8/8/5PPP/3R2K1 w - - 0 1");
    without_null.null_move_enabled = false;
    let (_, s_off) = run_depth(&mut without_null, 3);
    assert_eq!(s_on, s_off);
}

#[test]
fn test_searchmoves_restriction() {
    let mut d = engine();
    let e2e4 = parse_move(&d.pos, &d.tables, "e2e4").expect("legal opening move");
    d.state.enter(SEARCHING_STATE);
    d.constraints.clear();
    d.constraints.depth_limit = 1;
    d.constraints.searchmoves.push(e2e4);
    let has = prepare_search(&mut d);
    assert!(has);
    assert_eq!(d.root_moves.len(), 1);
    deepening_search(&mut d);
    d.state.enter(WAITING_STATE);
    let (best, _) = best_root_move(&d);
    assert_eq!(move_to_str(best).as_str(), "e2e4");
}

#[test]
fn test_avoid_stalemate_trap() {
    // Several queen moves here stalemate the bare king; the engine must
    // choose one that actually delivers mate instead.
    let mut d = engine_at("7k/5Q2/6K1/8/8/8/8/8 w - - 0 1");
    let (best, score) = run_depth(&mut d, 4);
    assert_ne!(best, NO_MOVE);
    assert!(is_mate_score(score) && score > 0);
    d.pos.do_move(&d.tables, best);
    let replies = daydreamer::movegen::legal_moves(&d.pos, &d.tables);
    assert_eq!(replies.len(), 0);
    assert_ne!(d.pos.checkers(&d.tables), 0);
}

#[test]
fn test_no_legal_moves_reports_none() {
    // Black is already checkmated; searching for black finds nothing.
    let mut d = engine_at("6kQ/6P1/6K1/8/8/8/8/8 b - - 0 1");
    d.constraints.clear();
    let has = prepare_search(&mut d);
    assert!(!has);
    let (best, _) = best_root_move(&d);
    assert_eq!(best, NO_MOVE);
}

#[test]
fn test_stop_state_returns_draw_immediately() {
    let mut d = engine();
    d.state.enter(STOPPING_STATE);
    let r = search(&mut d, 0, -32767, 32767, 8);
    assert_eq!(r, DRAW_SCORE);
}

#[test]
fn test_position_restored_after_search() {
    let mut d = engine_at("r1bqkbnr/pppp1ppp/2n5/4p3/4P3/5N2/PPPP1PPP/RNBQKB1R w KQkq - 2 3");
    let hash_before = d.pos.hash;
    let board_before = d.pos.board.clone();
    let _ = run_depth(&mut d, 3);
    assert_eq!(d.pos.hash, hash_before);
    assert_eq!(d.pos.board, board_before);
}

#[test]
fn test_selector_emits_tt_move_first() {
    let d = engine();
    let tt = parse_move(&d.pos, &d.tables, "e2e4").expect("legal opening move");
    let mut sel = daydreamer::movegen::MoveSelector::new(
        &d.pos,
        &d.tables,
        false,
        NO_MOVE,
        NO_MOVE,
        tt,
        NO_MOVE,
        &d.history,
    );
    let first = sel.next().expect("twenty moves to come");
    assert_eq!(first, tt);
    assert!(sel.special_move());
    let mut count = 1;
    while let Some(m) = sel.next() {
        assert_ne!(m, tt);
        count += 1;
    }
    assert_eq!(count, 20);
}

#[test]
fn test_selector_captures_before_quiets() {
    // A queen hangs: the winning capture must come out first.
    let d = engine_at("k7/8/8/3q4/8/8/8/3R3K w - - 0 1");
    let mut sel = daydreamer::movegen::MoveSelector::new(
        &d.pos,
        &d.tables,
        false,
        NO_MOVE,
        NO_MOVE,
        NO_MOVE,
        NO_MOVE,
        &d.history,
    );
    let first = sel.next().expect("moves exist");
    assert_eq!(move_to_str(first).as_str(), "d1d5");
    assert!(sel.last_see() >= 0);
}

#[test]
fn test_history_recording() {
    let mut d = engine();
    let m = parse_move(&d.pos, &d.tables, "g1f3").expect("legal move");
    let idx = SearchData::history_index(m);
    assert_eq!(d.history[idx], 0);
    d.record_success(m, 16);
    assert_eq!(d.history[idx], 16);
    d.record_failure(m, 16);
    d.record_failure(m, 16);
    assert_eq!(d.history[idx], -16);
}

#[test]
fn test_sort_root_moves_order() {
    let mut v = Vec::new();
    for (m, depth, score) in [(10u32, 1usize, 50i32), (11, 2, -10), (12, 2, 30), (13, 0, 100)] {
        let mut rm = daydreamer::search::RootMove::new(m);
        rm.depth = depth;
        rm.score = score;
        v.push(rm);
    }
    daydreamer::search::sort_root_moves(&mut v);
    let order: Vec<u32> = v.iter().map(|rm| rm.m).collect();
    assert_eq!(order, vec![12, 11, 10, 13]);
}

#[test]
fn test_new_game_clears_heuristics() {
    let mut d = engine();
    let m = parse_move(&d.pos, &d.tables, "e2e4").expect("legal move");
    d.record_success(m, 16);
    d.tt.put(99, 7, 4, 50, daydreamer::score::EXACT);
    d.new_game();
    assert!(d.history.iter().all(|h| *h == 0));
    assert!(d.countermoves.iter().all(|c| *c == NO_MOVE));
    assert!(d.tt.get(99).is_none());
}
