use infinite_chess::board::{Board, Coordinate, Piece, PieceType, PlayerColor};
use infinite_chess::game::{GameState, Variant};
use infinite_chess::moves::{Move, SpatialIndices};
use infinite_chess::search::decisions::{
    apply_mate_distance, apply_repetition, bounded, child_node_type, expected_quiet_depth,
    hindsight_depth, history_bonus, iir_depth, is_capture_futile, is_pruned_by_history,
    judge_leaf, judge_singular, lmp_count, lmr_reduction, loses_capture, loses_quiet,
    null_move_depth, probcut_beta, probcut_depth, pv_depth, quiet_futility_value, read_tt,
    refine_eval, research_depth, reverse_futility, score_without_moves, should_razor,
    should_reduce, should_try_null_move, should_try_probcut, should_update_correction,
    singular_beta, singular_conditions, small_probcut, soften_fail_high, soften_stand_pat,
    tt_cutoff, tt_flag, LeafVerdict, LmrInputs, Singular, Window,
};
use infinite_chess::search::limited::{clamp_skill, pick_best, scaled_skill};
use infinite_chess::search::multipv::is_time_for_move_over;
use infinite_chess::search::node::{is_search_due, judge_null_move, NullVerdict};
use infinite_chess::search::params::{
    delta_margin, razoring_linear, SearchParams, DEFAULT_DELTA_MARGIN, DEFAULT_RAZORING_LINEAR,
};
use infinite_chess::search::quiescence::{is_capture_hopeless, quiet_tt_cutoff, standing_eval};
use infinite_chess::search::searcher::{gravity_update, ClockReading, Searcher};
use infinite_chess::search::text::{
    format_heading, format_info, format_multi_pv_depth, format_numbered, format_pv_line,
    format_score, nps, Figures,
};
use infinite_chess::search::tt_defs::{TTFlag, TTProbeParams, TTProbeResult, TTStoreParams};
use infinite_chess::search::voting::select_thread_result;
use infinite_chess::search::{
    get_noise, is_decisive, is_loss, is_win, mate_in, mated_in, value_draw, CorrHistMode,
    MultiPVResult, NodeType, PVLine, Prng, ProbeContext, SearchStats, StoreContext, ThreadResult,
    TranspositionTable, TranspositionTableRef, CORRHIST_SIZE, INFINITY, LASTMOVE_CORRHIST_SIZE,
    LOW_PLY_HISTORY_ENTRIES, LOW_PLY_HISTORY_MASK, MATE_SCORE, MATE_VALUE, MAX_PLY, NO_VALUE,
};
use std::marker::PhantomData;

fn empty_game() -> GameState {
    let board = Board::new();
    let spatial_indices = SpatialIndices::from_board(&board);
    GameState {
        board,
        turn: PlayerColor::White,
        material_score: 0,
        white_king_pos: None,
        black_king_pos: None,
        total_phase: 0,
        white_promo_rank: 8,
        black_promo_rank: 1,
        starting_squares: Vec::new(),
        white_piece_count: 0,
        black_piece_count: 0,
        white_pawn_count: 0,
        black_pawn_count: 0,
        white_non_pawn_material: false,
        black_non_pawn_material: false,
        spatial_indices,
        bounds: (-100, 100, -100, 100),
        hash: 0,
        pawn_hash: 0,
        material_hash: 0,
        minor_hash: 0,
        white_nonpawn_hash: 0,
        black_nonpawn_hash: 0,
        white_royals: Vec::new(),
        black_royals: Vec::new(),
        halfmove_clock: 0,
        en_passant: None,
        variant: None,
        move_rule_limit: None,
    }
}

fn knight_move(fx: i64, fy: i64, tx: i64, ty: i64) -> Move {
    Move::new(
        Coordinate::new(fx, fy),
        Coordinate::new(tx, ty),
        Piece::new(PieceType::Knight, PlayerColor::White),
    )
}

fn reading(elapsed_ms: u64, iteration_ms: u64, budget_ms: Option<u64>) -> ClockReading {
    let budget_us = budget_ms.map(|b| b * 1000);
    ClockReading { elapsed_ms, iteration_ms, budget_us }
}

fn tt_result(score: i32, eval: i32, depth: u8, flag: TTFlag) -> Option<TTProbeResult> {
    Some(TTProbeResult {
        cutoff_score: score,
        tt_score: score,
        eval,
        depth,
        flag,
        is_pv: false,
        best_move: Some(knight_move(0, 0, 1, 2)),
    })
}

#[test]
fn test_corrhist_constants() {
    assert!(CORRHIST_SIZE.is_power_of_two());
    assert!(LASTMOVE_CORRHIST_SIZE.is_power_of_two());
    assert!(LOW_PLY_HISTORY_ENTRIES.is_power_of_two());
}

#[test]
fn test_searcher_new() {
    let searcher = Searcher::new(5000);

    assert_eq!(searcher.hot.time_limit_ms, 5000);
    assert_eq!(searcher.hot.nodes, 0);
    assert_eq!(searcher.hot.qnodes, 0);
    assert!(!searcher.hot.stopped);
    assert!(!searcher.silent);
    assert_eq!(searcher.thread_id, 0);
    assert_eq!(searcher.killers.len(), MAX_PLY);
    assert_eq!(searcher.pv_length.len(), MAX_PLY);
}

#[test]
fn test_searcher_decay_history() {
    let mut searcher = Searcher::new(5000);
    searcher.history[0][0] = 100;
    searcher.history[1][1] = 200;

    searcher.decay_history();

    assert_eq!(searcher.history[0][0], 90);
    assert_eq!(searcher.history[1][1], 180);
}

#[test]
fn test_searcher_update_history() {
    let mut searcher = Searcher::new(5000);

    searcher.update_history(PieceType::Knight, 42, 100);
    let val = searcher.history[PieceType::Knight.index()][42];
    assert!(val > 0, "History should be updated positively");

    searcher.update_history(PieceType::Knight, 42, -100);
    let val_after = searcher.history[PieceType::Knight.index()][42];
    assert!(
        val_after < val,
        "History should decrease with negative bonus"
    );
}

#[test]
fn test_searcher_check_time_no_limit() {
    let mut searcher = Searcher::new(u128::MAX);
    searcher.hot.nodes = 10000;

    let timed_out = searcher.check_time(&reading(u64::MAX, u64::MAX, Some(0)));
    assert!(!timed_out, "Should not timeout with MAX time limit");
}

#[test]
fn test_mate_score_detection() {
    let mate_score = MATE_VALUE - 10;
    let is_mate = mate_score.abs() > MATE_SCORE;
    assert!(is_mate, "Near MATE_VALUE should be detected as mate");

    let normal_score: i32 = 1000;
    let is_normal_mate = normal_score.abs() > MATE_SCORE;
    assert!(!is_normal_mate, "Normal score should not be mate");
}

#[test]
fn test_corrhist_mode_enum() {
    assert!(CorrHistMode::PawnBased != CorrHistMode::NonPawnBased);
}

#[test]
fn test_node_type_enum() {
    assert!(NodeType::PV != NodeType::Cut);
    assert!(NodeType::Cut != NodeType::All);
}

#[test]
fn test_search_stats_default() {
    let stats = SearchStats {
        nodes: 0,
        tt_capacity: 1000,
        tt_used: 500,
        tt_fill_permille: 500,
    };

    assert_eq!(stats.tt_capacity, 1000);
    assert_eq!(stats.tt_used, 500);
    assert_eq!(stats.tt_fill_permille, 500);
}

#[test]
fn test_move_creation_for_search() {
    let from = Coordinate::new(4, 4);
    let to = Coordinate::new(5, 6);
    let piece = Piece::new(PieceType::Knight, PlayerColor::White);

    let m = Move::new(from, to, piece);

    assert_eq!(m.from.x, 4);
    assert_eq!(m.from.y, 4);
    assert_eq!(m.to.x, 5);
    assert_eq!(m.to.y, 6);
}

#[test]
fn test_update_low_ply_history() {
    let mut searcher = Searcher::new(5000);

    searcher.update_low_ply_history(0, 42, 100);
    let val = searcher.low_ply_history[0][42 & LOW_PLY_HISTORY_MASK];
    assert!(val > 0, "Low ply history should be updated");

    let before = searcher.low_ply_history.clone();
    searcher.update_low_ply_history(10, 42, 1000);
    assert_eq!(before, searcher.low_ply_history);
}

#[test]
fn test_searcher_initialization() {
    let searcher = Searcher::new(10000);
    assert_eq!(searcher.hot.nodes, 0);
}

#[test]
fn test_killer_moves() {
    let mut searcher = Searcher::new(1000);
    let m = knight_move(4, 4, 5, 6);

    searcher.killers[0][1] = searcher.killers[0][0];
    searcher.killers[0][0] = Some(m);
    assert!(searcher.killers[0][0].is_some());

    let other = knight_move(4, 4, 6, 5);
    searcher.push_killer(0, &other);
    assert_eq!(searcher.killers[0], [Some(other), Some(m)]);
}

#[test]
fn test_search_stats_structure() {
    let stats = SearchStats {
        nodes: 0,
        tt_capacity: 1000,
        tt_used: 100,
        tt_fill_permille: 100,
    };
    assert_eq!(stats.tt_capacity, 1000);
    assert_eq!(stats.tt_used, 100);
    assert_eq!(stats.tt_fill_permille, 100);
}

#[test]
fn test_searcher_killers_and_history() {
    let mut searcher = Searcher::new(1000);
    let m = Move::new(
        Coordinate::new(0, 0),
        Coordinate::new(1, 1),
        Piece::new(PieceType::Pawn, PlayerColor::White),
    );
    searcher.killers[0][0] = Some(m);
    assert!(searcher.killers[0][0].is_some());
}

#[test]
fn test_history_table_dimensions() {
    let searcher = Searcher::new(1000);
    assert_eq!(searcher.history.len(), 32);
    assert_eq!(searcher.history[0].len(), 256);
}

#[test]
fn test_set_corrhist_mode() {
    let mut searcher = Searcher::new(1000);
    let mut game = empty_game();
    searcher.set_corrhist_mode(&game);
    assert!(
        searcher.corrhist_mode == CorrHistMode::PawnBased
            || searcher.corrhist_mode == CorrHistMode::NonPawnBased
    );
    assert!(searcher.corrhist_mode == CorrHistMode::NonPawnBased);
    game.variant = Some(Variant::Chess);
    searcher.set_corrhist_mode(&game);
    assert!(searcher.corrhist_mode == CorrHistMode::PawnBased);
}

#[test]
fn test_adjusted_eval() {
    let searcher = Searcher::new(1000);
    let mut game = empty_game();
    game.white_nonpawn_hash = 12345;
    game.pawn_hash = 67890;
    game.material_hash = 11111;

    let raw_eval: i32 = 100;
    let adjusted = searcher.adjusted_eval(&game, raw_eval, 0, 0);
    assert!(adjusted.abs() < raw_eval.abs() + 1000);
    assert_eq!(adjusted, 100);
}

#[test]
fn test_capture_history_update() {
    let mut searcher = Searcher::new(1000);
    searcher.capture_history[PieceType::Rook.index()][PieceType::Pawn.index()] = 100;
    let val = searcher.capture_history[PieceType::Rook.index()][PieceType::Pawn.index()];
    assert_eq!(val, 100);
}

#[test]
fn test_countermove_heuristic() {
    let mut searcher = Searcher::new(1000);
    let prev_from_hash = 10;
    let prev_to_hash = 20;
    searcher.countermoves[prev_from_hash][prev_to_hash] = (1, 5, 5);

    let (piece_type, to_x, to_y) = searcher.countermoves[prev_from_hash][prev_to_hash];
    assert_eq!(piece_type, 1);
    assert_eq!(to_x, 5);
    assert_eq!(to_y, 5);

    searcher.prev_move_stack[2] = (10, 20);
    searcher.set_countermove(3, &knight_move(0, 0, 1, 2));
    assert_eq!(
        searcher.countermoves[10][20],
        (PieceType::Knight.index() as u8, 1, 2)
    );
}

#[test]
fn test_searcher_thread_id() {
    let searcher = Searcher::new(1000);
    assert_eq!(searcher.thread_id, 0);
}

#[test]
fn test_searcher_silent_mode() {
    let mut searcher = Searcher::new(1000);
    assert!(!searcher.silent);
    searcher.silent = true;
    assert!(searcher.silent);
}

#[test]
fn test_move_rule_limit() {
    let searcher = Searcher::new(1000);
    assert_eq!(searcher.move_rule_limit, 100);
}

#[test]
fn test_params_default() {
    assert_eq!(razoring_linear(), DEFAULT_RAZORING_LINEAR);
    assert_eq!(delta_margin(), DEFAULT_DELTA_MARGIN);
    assert_eq!(SearchParams::default().razoring_linear, 485);
}

#[test]
fn check_time_follows_the_clock() {
    let mut searcher = Searcher::new(1000);
    searcher.hot.set_time_limits(800, 1000, false);
    // The first depth is always completed.
    assert!(!searcher.check_time(&reading(5000, 0, None)));
    searcher.hot.min_depth_required = 0;
    assert!(!searcher.check_time(&reading(999, 0, None)));
    // The clock is not due.
    searcher.hot.nodes = 1;
    assert!(!searcher.check_time(&reading(5000, 0, None)));
    assert!(!searcher.hot.stopped);
    // The next reading would come too late: 16384 nodes took 700 of 1000 ms.
    searcher.hot.nodes = 16384;
    assert!(!searcher.is_time_expired(&reading(600, 0, None)));
    assert!(searcher.is_time_expired(&reading(700, 0, None)));
    // An iteration took more than half of the budget.
    searcher.hot.nodes = 8192;
    assert!(!searcher.is_time_expired(&reading(600, 250, Some(500))));
    assert!(searcher.is_time_expired(&reading(600, 251, Some(500))));
    searcher.hot.is_soft_limit = true;
    assert!(!searcher.is_time_expired(&reading(600, 251, Some(500))));
    assert!(searcher.check_time(&reading(1000, 0, None)));
    assert!(searcher.hot.stopped);
}

#[test]
fn history_is_drawn_back() {
    assert_eq!(gravity_update(0, 100), 100);
    assert_eq!(gravity_update(16384, 100), 16384);
    assert_eq!(gravity_update(8192, 100), 8242);
    assert_eq!(gravity_update(-16384, -100), -16384);
    assert_eq!(gravity_update(0, 1_000_000), 16384);
    assert_eq!(history_bonus(1), 50);
    assert_eq!(history_bonus(5), 1250);
    assert_eq!(history_bonus(20), 1536);
}

#[test]
fn captures_are_learned() {
    let mut searcher = Searcher::new(1000);
    let (r, p) = (PieceType::Rook.index(), PieceType::Pawn.index());
    searcher.learn_capture(PieceType::Rook, PieceType::Pawn, 5, true);
    assert_eq!(searcher.capture_history[r][p], 200);
    searcher.learn_capture(PieceType::Rook, PieceType::Pawn, 5, false);
    assert_eq!(searcher.capture_history[r][p], 190);
    searcher.learn_tt_move(809);
    assert_eq!(searcher.tt_move_history, 809);
    searcher.learn_tt_move(-865);
    assert_eq!(searcher.tt_move_history, 809 - 865 - 85);
}

#[test]
fn quiet_cutoffs_are_learned() {
    let mut searcher = Searcher::new(1000);
    let best = knight_move(0, 0, 1, 2);
    let tried = knight_move(0, 0, 2, 1);
    let other = Move::new(
        Coordinate::new(3, 3),
        Coordinate::new(7, 3),
        Piece::new(PieceType::Rook, PlayerColor::White),
    );
    searcher.move_history[2] = Some(other);
    searcher.moved_piece_history[2] = PieceType::Rook.index() as u8;
    searcher.learn_quiet_cutoff(3, 5, &best, &vec![other, tried, best], 99, false);
    let n = PieceType::Knight.index();
    // Both knight moves go to squares of the same slot, the rook's to another.
    assert_eq!(searcher.history[n][3], 1250);
    assert_eq!(searcher.history[PieceType::Rook.index()][4], -1250);
    assert_eq!(searcher.killers[3][0], Some(best));
    assert_eq!(searcher.low_ply_history[3][3], 1250);
    assert_eq!(searcher.low_ply_history[3][4], -1250);
    assert_eq!(searcher.low_ply_history[2][3], 0);
    assert_eq!(searcher.pawn_history[99 * 8192 + n * 256 + 3], 2500);
    assert_eq!(
        searcher.pawn_history[99 * 8192 + PieceType::Rook.index() * 256 + 4],
        -1250
    );
    let before: i64 = searcher.cont_history.iter().map(|v| v.abs() as i64).sum();
    assert!(before > 0);
}

#[test]
fn quiet_moves_before_a_failure_are_rewarded() {
    let mut searcher = Searcher::new(1000);
    let m = knight_move(0, 0, 1, 2);
    searcher.move_history[0] = Some(m);
    searcher.moved_piece_history[0] = PieceType::Knight.index() as u8;
    searcher.learn_fail_low(1, 5, 99, false);
    let n = PieceType::Knight.index();
    assert_eq!(searcher.history[n][3], 625);
    assert_eq!(searcher.pawn_history[99 * 8192 + n * 256 + 3], 1250);
    searcher.capture_history_stack[0] = true;
    searcher.learn_fail_low(1, 5, 99, false);
    assert_eq!(searcher.history[n][3], 625);
}

#[test]
fn corrections_follow_results() {
    let mut searcher = Searcher::new(1000);
    let mut game = empty_game();
    game.variant = Some(Variant::Chess);
    searcher.set_corrhist_mode(&game);
    assert_eq!(searcher.adjusted_eval(&game, 10, 0, 0), 10);
    searcher.update_correction_history(&game, 0, 20, 0, 100, true, false, 0);
    // Half of the way.
    assert_eq!(searcher.pawn_corrhist[0][0], 12800);
    assert_eq!(searcher.adjusted_eval(&game, 10, 0, 0), 60);
    let before = searcher.pawn_corrhist.clone();
    searcher.update_correction_history(&game, 0, 10, 0, 100, false, false, 0);
    searcher.update_correction_history(&game, 0, 10, 0, 100, true, true, 0);
    assert_eq!(before, searcher.pawn_corrhist);
    assert_eq!(
        searcher.adjusted_eval(&game, i32::MAX, 0, 0),
        MATE_SCORE - 1
    );
}

#[test]
fn shuffling_is_recognized() {
    let mut searcher = Searcher::new(1000);
    let mut game = empty_game();
    game.halfmove_clock = 10;
    let there = knight_move(0, 0, 1, 2);
    let back = knight_move(1, 2, 0, 0);
    searcher.move_history[16] = Some(there);
    searcher.move_history[18] = Some(back);
    searcher.plies_from_null[20] = 7;
    assert!(searcher.is_shuffling(&game, &there, 20));
    searcher.plies_from_null[20] = 6;
    assert!(!searcher.is_shuffling(&game, &there, 20));
    searcher.plies_from_null[20] = 7;
    game.halfmove_clock = 9;
    assert!(!searcher.is_shuffling(&game, &there, 20));
}

#[test]
fn principal_variations_grow_at_the_front() {
    let mut searcher = Searcher::new(1000);
    let a = knight_move(0, 0, 1, 2);
    let b = knight_move(1, 2, 2, 4);
    let c = knight_move(2, 4, 3, 6);
    searcher.update_pv(2, &c);
    searcher.update_pv(1, &b);
    searcher.update_pv(0, &a);
    assert_eq!(searcher.pv_length[0], 3);
    assert_eq!(searcher.pv_table[..3], [Some(a), Some(b), Some(c)]);
    assert_eq!(searcher.line_after(&a), vec![a, b, c]);
    searcher.enter_node(0, false);
    assert_eq!(searcher.pv_length[0], 0);
    assert_eq!(searcher.pv_length[1], 2);
    assert_eq!(searcher.plies_from_null[0], 255);
    searcher.enter_node(1, true);
    assert_eq!(searcher.plies_from_null[1], 1);
}

#[test]
fn records_are_put_back() {
    let mut searcher = Searcher::new(1000);
    let m = knight_move(0, 0, 1, 2);
    let saved = searcher.record(5);
    let made = Searcher::new_record(&m, true, true);
    searcher.put_record(5, &made);
    assert_eq!(searcher.move_history[5], Some(m));
    assert_eq!(searcher.prev_move_stack[5], (0, 3));
    assert!(searcher.in_check_history[5]);
    searcher.put_record(5, &saved);
    assert_eq!(searcher.move_history[5], None);
    assert_eq!(searcher.prev_move_stack[5], (0, 0));
    assert!(!searcher.capture_history_stack[5]);
    searcher.prev_move_stack[4] = (5, 3);
    assert_eq!(searcher.prev_move_index(5), 6);
    assert_eq!(searcher.prev_move_index(0), 0);
}

#[test]
fn excluded_moves_are_known_by_their_squares() {
    let mut searcher = Searcher::new(1000);
    let m = knight_move(0, 0, 1, 2);
    assert!(!searcher.is_excluded(&m));
    searcher.excluded_moves.push((0, 0, 1, 2));
    assert!(searcher.is_excluded(&m));
    assert!(!searcher.is_excluded(&knight_move(0, 0, 2, 1)));
}

#[test]
fn scores_and_draws() {
    assert_eq!(mate_in(3), 899_997);
    assert_eq!(mated_in(3), -899_997);
    assert!(is_win(800_001) && !is_win(800_000));
    assert!(is_loss(-800_001) && !is_loss(-800_000));
    assert!(is_decisive(-800_001) && !is_decisive(800_000));
    assert_eq!([0, 1, 2, 3, 4].map(value_draw), [-1, -1, 1, 1, -1]);
    assert_eq!(bounded(i32::MAX), INFINITY);
    assert_eq!(bounded(i32::MIN), -INFINITY);
    assert_eq!(bounded(7), 7);
    assert_eq!(score_without_moves(true, false, 4), -899_996);
    assert_eq!(score_without_moves(false, true, 4), -899_996);
    assert_eq!(score_without_moves(false, false, 4), 0);
}

#[test]
fn random_numbers_never_stop() {
    let mut a = Prng::new(0);
    let mut b = Prng::new(0x123456789ABCDEF0);
    for _ in 0..1000 {
        let x = a.next_u64();
        assert_eq!(x, b.next_u64());
        assert!(x != 0);
    }
    let mut one = Prng { state: 1 };
    assert_eq!(one.next_u64(), 0x40822041);
    assert_eq!(get_noise(1, 2, 0), 0);
    for hash in 0..200 {
        let n = get_noise(42, hash, 5);
        assert!((-5..5).contains(&n));
        assert_eq!(n, get_noise(42, hash, 5));
    }
}

#[test]
fn windows_close_and_narrow() {
    assert!(matches!(apply_repetition(-50, 0, 1), Window::Closed(1)));
    assert!(matches!(apply_repetition(-50, 20, -1), Window::Open(-1, 20)));
    assert!(matches!(
        apply_mate_distance(-INFINITY, INFINITY, 10),
        Window::Open(-899_990, 899_989)
    ));
    assert!(matches!(
        apply_mate_distance(899_995, INFINITY, 10),
        Window::Closed(899_995)
    ));
}

#[test]
fn table_entries_are_read_and_cut_off() {
    let none = read_tt(None);
    assert!(!none.hit && none.value.is_none() && none.eval == NO_VALUE);
    let empty = read_tt(tt_result(NO_VALUE, NO_VALUE, 0, TTFlag::NoBound));
    assert!(empty.hit && empty.value.is_none());
    let tt = read_tt(tt_result(150, 30, 8, TTFlag::LowerBound));
    assert_eq!(refine_eval(30, &tt), 150);
    assert_eq!(refine_eval(200, &tt), 200);
    assert_eq!(tt_cutoff(&tt, 100, 7, true, 0, 100), Some(150));
    assert_eq!(tt_cutoff(&tt, 100, 8, true, 0, 100), None);
    assert_eq!(tt_cutoff(&tt, 100, 4, false, 0, 100), None);
    assert_eq!(tt_cutoff(&tt, 100, 7, true, 96, 100), None);
    assert_eq!(tt_cutoff(&tt, 200, 7, true, 0, 100), None);
    assert_eq!(quiet_tt_cutoff(&tt, 100), Some(150));
    assert_eq!(quiet_tt_cutoff(&tt, 200), None);
    assert_eq!(standing_eval(30, &tt), 150);
    let mate = read_tt(tt_result(850_000, 30, 8, TTFlag::LowerBound));
    assert_eq!(standing_eval(30, &mate), 30);
    assert_eq!(small_probcut(&read_tt(tt_result(900, 0, 8, TTFlag::Exact)), 100, 12), Some(900));
    assert_eq!(small_probcut(&tt, 100, 8), None);
    assert!(singular_conditions(&tt, 8, false) == Some((150, 3)));
    assert!(singular_conditions(&tt, 5, false).is_none());
    assert!(singular_conditions(&tt, 8, true).is_none());
    assert_eq!(singular_beta(150, 8, 1500), 136);
}

#[test]
fn nodes_are_pruned() {
    assert!(should_razor(-3000, 0, 2));
    assert!(!should_razor(-1609, 0, 2));
    assert!(should_razor(-1610, 0, 2));
    assert_eq!(
        reverse_futility(false, 3, true, 100, 400, false, false, false, 0),
        Some(200)
    );
    assert_eq!(
        reverse_futility(false, 3, true, 100, 250, false, false, false, 0),
        None
    );
    assert_eq!(
        reverse_futility(true, 3, true, 100, 400, false, false, false, 0),
        None
    );
    assert!(should_try_null_move(true, true, 5, 0, -260));
    assert!(!should_try_null_move(true, true, 5, 0, -261));
    assert!(!should_try_null_move(true, false, 5, 0, 0));
    assert_eq!(null_move_depth(12), 1);
    assert_eq!(null_move_depth(5), 0);
    assert_eq!(iir_depth(6, false), 4);
    assert_eq!(iir_depth(6, true), 6);
    assert_eq!(iir_depth(5, false), 5);
    assert_eq!(probcut_beta(100, false), 335);
    assert_eq!(probcut_beta(100, true), 272);
    assert!(should_try_probcut(false, false, 5, 100, None, 335));
    assert!(!should_try_probcut(false, false, 5, 100, Some(334), 335));
    assert_eq!(probcut_depth(8, 730, 100), 2);
    assert_eq!(probcut_depth(8, 5000, 100), 0);
    assert_eq!(probcut_depth(8, -5000, 100), 8);
    assert_eq!(hindsight_depth(5, 3, false, 0, 0), 6);
    assert_eq!(hindsight_depth(5, 2, false, 100, 74), 4);
    assert_eq!(hindsight_depth(5, 2, false, 100, 73), 5);
}

#[test]
fn moves_are_pruned() {
    assert_eq!(lmp_count(4, true), 19);
    assert_eq!(lmp_count(4, false), 9);
    assert!(is_capture_futile(-1000, 2, 100, 0, 0));
    assert!(!is_capture_futile(-765, 2, 100, 0, 0));
    assert!(is_capture_futile(-766, 2, 100, 0, 0));
    assert!(loses_capture(-213, 2, 0));
    assert!(!loses_capture(-212, 2, 0));
    assert!(is_pruned_by_history(-8167, 2));
    assert!(!is_pruned_by_history(-8166, 2));
    assert_eq!(expected_quiet_depth(3, -6416), 1);
    assert_eq!(expected_quiet_depth(1, -16384), 0);
    assert_eq!(quiet_futility_value(10, false, 2), 467);
    assert_eq!(quiet_futility_value(10, true, 2), 306);
    assert!(loses_quiet(-101, 2));
    assert!(!loses_quiet(-100, 2));
    assert!(is_capture_hopeless(-1, 0, -500));
    assert!(is_capture_hopeless(100, 0, 301));
    assert!(!is_capture_hopeless(100, 0, 300));
    assert!(matches!(judge_leaf(1, -1), LeafVerdict::Drop));
    assert!(matches!(judge_leaf(2, -1), LeafVerdict::Keep(1)));
    assert!(matches!(judge_leaf(1, 0), LeafVerdict::Keep(0)));
    assert!(matches!(judge_leaf(1, 300), LeafVerdict::Keep(1)));
}

#[test]
fn late_moves_are_reduced() {
    assert!(should_reduce(3, 4, false, false, false));
    assert!(!should_reduce(3, 3, false, false, false));
    assert!(!should_reduce(3, 4, true, false, false));
    assert!(!should_reduce(3, 4, false, false, true));
    let plain = LmrInputs {
        base: 2,
        improving: true,
        history: 0,
        correction: 0,
        shuffling: false,
        next_cutoffs: 0,
        all_node: false,
        tt_move_history: 0,
    };
    assert_eq!(lmr_reduction(plain, 10), 2);
    assert_eq!(lmr_reduction(LmrInputs { improving: false, ..plain }, 10), 3);
    assert_eq!(lmr_reduction(LmrInputs { history: 8192, ..plain }, 10), 0);
    assert_eq!(lmr_reduction(LmrInputs { correction: 119, ..plain }, 10), 1);
    assert_eq!(lmr_reduction(LmrInputs { correction: 118, ..plain }, 10), 2);
    assert_eq!(lmr_reduction(LmrInputs { shuffling: true, ..plain }, 10), 3);
    let cut = LmrInputs { next_cutoffs: 3, all_node: true, ..plain };
    assert_eq!(lmr_reduction(cut, 10), 4);
    assert_eq!(lmr_reduction(LmrInputs { tt_move_history: -1001, ..plain }, 10), 1);
    assert_eq!(lmr_reduction(cut, 4), 2);
    assert_eq!(research_depth(5, 3, 100, 0), 6);
    assert_eq!(research_depth(5, 3, 53, 0), 5);
    assert_eq!(research_depth(5, 3, 8, 0), 4);
    assert_eq!(research_depth(0, 0, 8, 0), 0);
    let deep = read_tt(tt_result(10, 0, 2, TTFlag::Exact));
    assert_eq!(pv_depth(0, true, &deep), 1);
    assert_eq!(pv_depth(0, false, &deep), 0);
    let shallow = read_tt(tt_result(10, 0, 1, TTFlag::Exact));
    assert_eq!(pv_depth(0, true, &shallow), 0);
}

#[test]
fn singular_moves_are_judged() {
    let judge = |value, cut| judge_singular(value, 100, 150, 8, false, 0, Some(120), cut);
    assert!(matches!(judge(90, false), Singular::Extend(1)));
    assert!(matches!(judge(83, false), Singular::Extend(2)));
    assert!(matches!(judge(67, false), Singular::Extend(3)));
    assert!(matches!(judge(150, false), Singular::MultiCut));
    assert!(matches!(judge(120, true), Singular::Plain(-2)));
    assert!(matches!(judge(120, false), Singular::Plain(0)));
    assert!(matches!(
        judge_singular(120, 100, 150, 8, false, 0, Some(150), true),
        Singular::Plain(-3)
    ));
}

#[test]
fn results_are_softened_and_flagged() {
    assert_eq!(soften_fail_high(200, 0, 100, 4), 180);
    assert_eq!(soften_fail_high(50, 0, 100, 4), 50);
    assert_eq!(soften_fail_high(850_000, 0, 100, 4), 850_000);
    assert_eq!(soften_stand_pat(200, 100), 150);
    assert_eq!(soften_stand_pat(850_000, 100), 850_000);
    assert_eq!(tt_flag(0, 0, 10), TTFlag::UpperBound);
    assert_eq!(tt_flag(10, 0, 10), TTFlag::LowerBound);
    assert_eq!(tt_flag(5, 0, 10), TTFlag::Exact);
    assert!(should_update_correction(TTFlag::LowerBound, 10, 10));
    assert!(!should_update_correction(TTFlag::LowerBound, 9, 10));
    assert!(!should_update_correction(TTFlag::UpperBound, 11, 10));
    assert!(!should_update_correction(TTFlag::NoBound, 10, 10));
    assert_eq!(child_node_type(NodeType::PV, true), NodeType::PV);
    assert_eq!(child_node_type(NodeType::PV, false), NodeType::Cut);
    assert_eq!(child_node_type(NodeType::Cut, true), NodeType::All);
    assert_eq!(child_node_type(NodeType::All, true), NodeType::Cut);
}

#[test]
fn empty_shared_tables_hold_nothing() {
    let _table = TranspositionTable::new(16);
    let shared = TranspositionTableRef::_Phantom(PhantomData);
    let ctx = ProbeContext {
        hash: 1,
        alpha: -10,
        beta: 10,
        depth: 3,
        ply: 2,
        rule50_count: 5,
        rule_limit: 100,
    };
    let params = ctx.params();
    assert_eq!(
        params,
        TTProbeParams {
            hash: 1,
            alpha: -10,
            beta: 10,
            depth: 3,
            ply: 2,
            rule50_count: 5,
            rule_limit: 100
        }
    );
    let store = StoreContext {
        hash: 1,
        depth: 3,
        flag: TTFlag::Exact,
        score: 5,
        static_eval: 4,
        is_pv: true,
        best_move: None,
        ply: 2,
    };
    let told: TTStoreParams = store.params();
    shared.store(&told);
    assert!(shared.probe(&params).is_none());
    assert!(shared.probe_move(1).is_none());
    assert_eq!(shared.capacity(), 0);
    assert_eq!(shared.used_entries(), 0);
    assert_eq!(shared.fill_permille(), 0);
}

fn line(tx: i64, score: i32) -> PVLine {
    PVLine { mv: knight_move(0, 0, tx, 2), score, depth: 3, pv: vec![] }
}

fn lines_of(scores: &[i32]) -> MultiPVResult {
    MultiPVResult {
        lines: scores.iter().enumerate().map(|(i, s)| line(i as i64, *s)).collect(),
        stats: SearchStats { nodes: 0, tt_capacity: 0, tt_used: 0, tt_fill_permille: 0 },
    }
}

#[test]
fn weak_players_are_led_astray() {
    assert_eq!(clamp_skill(None), 3);
    assert_eq!(clamp_skill(Some(0)), 1);
    assert_eq!(clamp_skill(Some(9)), 3);
    assert_eq!([1, 2, 3].map(scaled_skill), [1, 11, 20]);
    assert!(pick_best(&lines_of(&[]), 5, &vec![]).is_none());
    let one = pick_best(&lines_of(&[7]), 5, &vec![]).unwrap();
    assert_eq!(one.1, 7);
    let full = pick_best(&lines_of(&[50, 10]), 20, &vec![]).unwrap();
    assert_eq!(full.1, 50);
    // At level 1 the weakness is 118: 50 against 10 + (118 * 40 + 40 * draw) / 128.
    let luck = pick_best(&lines_of(&[50, 10]), 1, &vec![0, 118]).unwrap();
    assert_eq!(luck.1, 10);
    let none = pick_best(&lines_of(&[50, 10]), 1, &vec![0, 0]).unwrap();
    assert_eq!(none.1, 50);
    let tie = pick_best(&lines_of(&[50, 50]), 1, &vec![0, 0]).unwrap();
    assert_eq!(tie.0.to.x, 1);
}

#[test]
fn moves_and_scores_are_written() {
    assert!(format_score(0) == "cp 0");
    assert!(format_score(-123) == "cp -123");
    assert!(format_score(800_000) == "cp 800000");
    assert!(format_score(899_997) == "mate 2");
    assert!(format_score(-899_996) == "mate -2");
    let mut codes = vec![String::new(); 32];
    codes[PieceType::Queen.index()] = String::from("q");
    assert!(format_pv_line(&vec![], &codes) == "");
    let mut promotes = knight_move(-12, 7, 0, 10);
    promotes.promotion = Some(PieceType::Queen);
    let pv = vec![knight_move(1, 2, 3, -4), promotes];
    assert!(format_pv_line(&pv, &codes) == "1,2->3,-4 -12,7->0,10q");
    assert_eq!(nps(1000, 0), 0);
    assert_eq!(nps(1000, 400), 2500);
    let f = Figures { depth: 5, seldepth: 9, nodes: 1000, qnodes: 10, time_ms: 400, tt_fill: 7 };
    assert!(
        format_info(&f, 1, 34, &String::from("x"))
            == "info depth 5 seldepth 9 score cp 34 nodes 1000 qnodes 10 nps 2500 time 400 hashfull 7 pv x"
    );
    assert!(
        format_info(&f, 2, 34, &String::from("x"))
            == "info depth 5 seldepth 9 multipv 2 score cp 34 nodes 1000 qnodes 10 nps 2500 time 400 hashfull 7 pv x"
    );
    assert!(
        format_heading(&f) == "Depth 5 (time 400ms, nodes 1000, nps 2500, hashfull 7\u{2030})"
    );
    let found = PVLine { mv: pv[0], score: 12, depth: 5, pv: vec![pv[0]] };
    assert!(format_numbered(1, &found, &codes) == "#1 cp 12 pv 1,2->3,-4");
    assert!(format_multi_pv_depth(&f, &vec![], &codes).is_empty());
    let rows = format_multi_pv_depth(&f, &vec![found.clone(), found], &codes);
    assert_eq!(rows.len(), 3);
    assert!(rows[2] == "#2 cp 12 pv 1,2->3,-4");
}

#[test]
fn time_for_root_moves_runs_out() {
    let mut searcher = Searcher::new(1000);
    assert!(!is_time_for_move_over(&searcher.hot, &reading(5000, 0, None)));
    searcher.hot.set_time_limits(500, 1000, false);
    assert!(!is_time_for_move_over(&searcher.hot, &reading(1000, 0, None)));
    assert!(is_time_for_move_over(&searcher.hot, &reading(1001, 0, None)));
    assert!(is_time_for_move_over(&searcher.hot, &reading(501, 0, Some(500))));
    assert!(!is_time_for_move_over(&searcher.hot, &reading(500, 0, Some(500))));
}

fn vote(tx: i64, score: i32, depth: usize, pv_length: usize, thread_id: usize) -> ThreadResult {
    ThreadResult {
        best_move: knight_move(0, 0, tx, 2),
        score,
        completed_depth: depth,
        pv_length,
        nodes: 100,
        thread_id,
    }
}

#[test]
fn threads_vote_for_a_move() {
    assert!(select_thread_result(&vec![], 0, 0, 0).is_none());
    // Two threads outvote one that is slightly better.
    let results = vec![vote(1, 30, 5, 5, 0), vote(2, 25, 5, 5, 1), vote(2, 25, 5, 5, 2)];
    let (m, score, stats) = select_thread_result(&results, 8, 4, 2).unwrap();
    assert_eq!(m.to.x, 2);
    assert_eq!(score, 25);
    assert_eq!(stats.nodes, 300);
    assert_eq!(stats.tt_capacity, 8);
    // A proven win is not outvoted.
    let results = vec![vote(1, 899_990, 5, 5, 0), vote(2, 25, 9, 5, 1), vote(2, 25, 9, 5, 2)];
    assert_eq!(select_thread_result(&results, 8, 4, 2).unwrap().0.to.x, 1);
    // The faster mate is taken.
    let results = vec![vote(1, 899_990, 5, 5, 0), vote(2, 899_995, 5, 5, 1)];
    assert_eq!(select_thread_result(&results, 8, 4, 2).unwrap().0.to.x, 2);
}

#[test]
fn losing_threads_resist_longest() {
    let results = vec![vote(1, -899_990, 5, 5, 0), vote(2, -899_998, 5, 5, 1)];
    let (m, score, _) = select_thread_result(&results, 8, 4, 2).unwrap();
    assert_eq!(m.to.x, 1);
    assert_eq!(score, -899_990);
    let results = vec![
        vote(2, -899_998, 5, 5, 0),
        vote(3, -899_994, 5, 5, 1),
        vote(1, -899_990, 5, 5, 2),
    ];
    let (m, score, _) = select_thread_result(&results, 8, 4, 2).unwrap();
    assert_eq!(m.to.x, 1);
    assert_eq!(score, -899_990);
}

#[test]
fn null_moves_and_null_windows_are_judged() {
    assert_eq!(judge_null_move(99, 100, 5), NullVerdict::Continue);
    assert_eq!(judge_null_move(100, 100, 5), NullVerdict::Prune);
    assert_eq!(judge_null_move(100, 100, 15), NullVerdict::Prune);
    assert_eq!(judge_null_move(100, 100, 16), NullVerdict::Confirm);
    assert_eq!(judge_null_move(MATE_SCORE + 1, 100, 5), NullVerdict::Continue);
    assert!(!is_search_due(10, 10, 20, 3));
    assert!(is_search_due(11, 10, 20, 0));
    assert!(!is_search_due(20, 10, 20, 0));
    assert!(is_search_due(20, 10, 20, 1));
}
