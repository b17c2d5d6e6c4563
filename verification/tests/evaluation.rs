use infinite_chess::board::{Board, Coordinate, Piece, PieceType, PlayerColor};
use infinite_chess::evaluation::base::{
    calculate_initial_material, compute_mop_up_term, debug_evaluate, evaluate, evaluate_inner,
    evaluate_inner_traced, evaluate_pawn_structure, mop_up_sides, EndgameTerms, EvalContext,
};
use infinite_chess::evaluation::features::{
    reset_eval_features, snapshot_eval_features, EvalFeatures,
};
use infinite_chess::evaluation::lines::{
    is_between, is_clear_line_between, is_clear_line_between_fast,
};
use infinite_chess::evaluation::pawn_cache::{clear_pawn_cache, PawnCache};
use infinite_chess::evaluation::pawns::{count_pawns_on_file, has_pawn_at};
use infinite_chess::evaluation::pieces::{
    evaluate_bishop, evaluate_knight, evaluate_leaper_positioning, evaluate_queen, evaluate_rook,
};
use infinite_chess::evaluation::tracing::{ActiveTrace, NoTrace};
use infinite_chess::evaluation::values::{get_piece_phase, get_piece_value, taper};
use infinite_chess::evaluation::variants::chess;
use infinite_chess::game::{GameState, Variant};
use infinite_chess::moves::SpatialIndices;

fn kind(letter: char) -> PieceType {
    match letter.to_ascii_lowercase() {
        'k' => PieceType::King,
        'q' => PieceType::Queen,
        'r' => PieceType::Rook,
        'b' => PieceType::Bishop,
        'n' => PieceType::Knight,
        'p' => PieceType::Pawn,
        _ => panic!("unknown piece"),
    }
}

fn mix(mut h: u64) -> u64 {
    h = (h ^ (h >> 30)).wrapping_mul(0xbf58476d1ce4e5b9);
    h = (h ^ (h >> 27)).wrapping_mul(0x94d049bb133111eb);
    h ^ (h >> 31)
}

fn game_of(pieces: Vec<(i64, i64, Piece)>, turn: PlayerColor, white: i64, black: i64) -> GameState {
    let mut material = 0;
    let mut phase = 0;
    let mut kings: [Option<Coordinate>; 2] = [None, None];
    let mut counts = [0u32; 2];
    let mut pawns = [0u32; 2];
    let mut pawn_hash = 1u64;
    for (x, y, p) in &pieces {
        let side = if p.color == PlayerColor::White { 0 } else { 1 };
        let value = get_piece_value(p.piece_type);
        material += if side == 0 { value } else { -value };
        phase += get_piece_phase(p.piece_type);
        counts[side] += 1;
        if p.piece_type == PieceType::King {
            kings[side] = Some(Coordinate::new(*x, *y));
        }
        if p.piece_type == PieceType::Pawn {
            pawns[side] += 1;
            pawn_hash ^= mix((*x as u64).wrapping_mul(1000003) ^ ((*y as u64) << 20) ^ side as u64);
        }
    }
    let board = Board { pieces };
    let spatial_indices = SpatialIndices::from_board(&board);
    let starting_squares = Vec::new();
    GameState {
        board,
        turn,
        material_score: material,
        white_king_pos: kings[0],
        black_king_pos: kings[1],
        total_phase: phase,
        white_promo_rank: white,
        black_promo_rank: black,
        starting_squares,
        white_piece_count: counts[0],
        black_piece_count: counts[1],
        white_pawn_count: pawns[0],
        black_pawn_count: pawns[1],
        white_non_pawn_material: counts[0] > pawns[0] + 1,
        black_non_pawn_material: counts[1] > pawns[1] + 1,
        spatial_indices,
        bounds: (-1000, 1000, -1000, 1000),
        hash: mix(pawn_hash),
        pawn_hash,
        material_hash: 0,
        minor_hash: 0,
        white_nonpawn_hash: 0,
        black_nonpawn_hash: 0,
        white_royals: kings[0].into_iter().collect(),
        black_royals: kings[1].into_iter().collect(),
        halfmove_clock: 0,
        en_passant: None,
        variant: None,
        move_rule_limit: Some(100),
    }
}

fn numbers(text: &str) -> Vec<i64> {
    let mut found = Vec::new();
    let mut current = String::new();
    for c in text.chars().chain(" ".chars()) {
        if c.is_ascii_digit() || (c == '-' && current.is_empty()) {
            current.push(c);
        } else if !current.is_empty() {
            found.push(current.parse().unwrap());
            current.clear();
        }
    }
    found
}

/// Reads a position such as `w (8;q|1;q) K5,1|k5,8`.
fn position(icn: &str) -> GameState {
    let parts: Vec<&str> = icn.split_whitespace().collect();
    let turn = if parts[0] == "w" {
        PlayerColor::White
    } else {
        PlayerColor::Black
    };
    let ranks = numbers(parts[1]);
    let mut pieces = Vec::new();
    for item in parts[2].split('|') {
        if item.is_empty() {
            continue;
        }
        let letter = item.chars().next().unwrap();
        let color = if letter.is_ascii_uppercase() {
            PlayerColor::White
        } else {
            PlayerColor::Black
        };
        let at = numbers(&item[1..]);
        pieces.push((at[0], at[1], Piece::new(kind(letter), color)));
    }
    game_of(pieces, turn, ranks[0], ranks[1])
}

fn empty_game() -> GameState {
    game_of(Vec::new(), PlayerColor::White, 8, 1)
}

fn plain() -> EndgameTerms {
    EndgameTerms {
        insufficient: None,
        white_mop_up: None,
        black_mop_up: None,
    }
}

const EG_OUTPOST_BONUS: i32 = infinite_chess::evaluation::pieces::EG_OUTPOST_BONUS;
const MAX_PHASE: i32 = infinite_chess::evaluation::values::MAX_PHASE;

#[test]
fn test_is_between() {
    assert!(is_between(5, 3, 7));
    assert!(is_between(5, 7, 3));
    assert!(!is_between(3, 3, 7));
    assert!(!is_between(7, 3, 7));
    assert!(!is_between(2, 3, 7));
    assert!(!is_between(8, 3, 7));
}

#[test]
fn test_is_clear_line_between() {
    let game = empty_game();
    let from = Coordinate::new(1, 1);
    let to = Coordinate::new(1, 8);

    assert!(is_clear_line_between(&game.board, &from, &to));

    let icn = "w (8;q|1|q) P1,4";
    let game = position(icn);
    assert!(!is_clear_line_between(&game.board, &from, &to));
}

#[test]
fn test_is_clear_line_diagonal() {
    let game = empty_game();
    let from = Coordinate::new(1, 1);
    let to = Coordinate::new(5, 5);

    assert!(is_clear_line_between(&game.board, &from, &to));

    let icn = "w (8;q|1;q) b3,3|";
    let game = position(icn);
    assert!(!is_clear_line_between(&game.board, &from, &to));
}

#[test]
fn line_lists_and_board_agree() {
    let game = position("w (8;q|1;q) K0,0|k7,7|B4,4|R0,7");
    let squares = [(0, 0), (7, 7), (4, 4), (0, 7), (2, 2), (7, 0), (1, 3), (3, 4)];
    for a in squares {
        for b in squares {
            let from = Coordinate::new(a.0, a.1);
            let to = Coordinate::new(b.0, b.1);
            assert_eq!(
                is_clear_line_between(&game.board, &from, &to),
                is_clear_line_between_fast(&game.spatial_indices, &from, &to)
            );
        }
    }
    let a = Coordinate::new(1, 3);
    let b = Coordinate::new(3, 4);
    assert!(!is_clear_line_between(&game.board, &a, &b));
}

#[test]
fn test_calculate_initial_material() {
    let game = empty_game();
    assert_eq!(calculate_initial_material(&game.board), 0);

    let icn1 = "w (8;q|1;q) Q4,1";
    let game = position(icn1);
    assert_eq!(calculate_initial_material(&game.board), 1350);

    let icn2 = "w (8;q|1|q) Q4,1|q4,8";
    let game = position(icn2);
    assert_eq!(calculate_initial_material(&game.board), 0);
}

#[test]
fn test_clear_pawn_cache() {
    let mut cache = PawnCache::new();
    clear_pawn_cache(&mut cache);
}

#[test]
fn test_evaluate_returns_value() {
    let icn = "w (8;q|1;q) K5,1|k5,8";
    let game = position(icn);
    let mut ctx = EvalContext::new();

    let score = evaluate(&game, &plain(), &mut ctx);
    assert!(score.abs() < 1000, "K vs K should be near 0, got {}", score);
}

#[test]
fn test_count_pawns_on_file() {
    let icn = "w (8;q|1;q) K5,1|k5,8|P4,2|P4,3|p4,7";
    let game = position(icn);

    let w_pawns = vec![(4, 1), (4, 3)];
    let b_pawns = vec![(4, 7)];
    let (own, enemy) = count_pawns_on_file(&game, 4, PlayerColor::White, &w_pawns, &b_pawns);
    assert_eq!(own, 2);
    assert_eq!(enemy, 1);
}

#[test]
fn test_evaluate_pawn_structure() {
    let icn = "w (8;q|1;q) K5,1|k5,8|P4,2|P4,3";
    let game = position(icn);
    let mut cache = PawnCache::new();

    let score = evaluate_pawn_structure(&game, &mut cache);
    assert!(
        score.abs() < 1000,
        "Pawn structure score should be reasonable: {}",
        score
    );
}

#[test]
fn test_king_safety_penalties() {
    let mut ctx = EvalContext::new();
    let icn_near = "w (8;q|1;q) K0,0|k10,10|R5,0|r5,9|Q0,1";
    let game = position(icn_near);
    let score_near = evaluate_inner(&game, &plain(), &mut ctx);

    let icn_far = "w (8;q|1;q) K0,0|k10,10|R5,0|r5,9|Q5,5";
    let game = position(icn_far);
    let score_far = evaluate_inner(&game, &plain(), &mut ctx);

    assert!(score_far != score_near);
}

#[test]
fn test_pawn_structure_caching() {
    let icn = "w (8;q|1;q) K5,1|k5,8|P4,4|p4,5";
    let game = position(icn);
    let mut ctx = EvalContext::new();

    clear_pawn_cache(&mut ctx.pawn_cache);
    let eval1 = evaluate_inner(&game, &plain(), &mut ctx);
    let eval2 = evaluate_inner(&game, &plain(), &mut ctx);
    assert_eq!(
        eval1, eval2,
        "Cached evaluation should match initial evaluation"
    );
}

#[test]
fn test_evaluate_bishop_diagonal() {
    let icn = "w (8;q|1;q) K0,0|k7,7|B4,4";
    let game = position(icn);

    let wk = Some(Coordinate::new(0, 0));
    let bk = Some(Coordinate::new(7, 7));
    let score = evaluate_bishop(
        &game,
        4,
        4,
        PlayerColor::White,
        &wk,
        &bk,
        MAX_PHASE,
        &[],
        &[],
    );
    assert!(
        score > 0,
        "Central bishop should have positive positional score"
    );
}

#[test]
fn test_evaluate_rook_open_file() {
    let icn = "w (8;q|1;q) K0,0|k7,7|R4,1";
    let game = position(icn);

    let wk = Some(Coordinate::new(0, 0));
    let bk = Some(Coordinate::new(7, 7));
    let score = evaluate_rook(
        &game,
        4,
        1,
        PlayerColor::White,
        &wk,
        &bk,
        MAX_PHASE,
        &[],
        &[],
    );
    assert!(score.abs() < 1000, "Rook score should be reasonable");
}

#[test]
fn test_evaluate_queen_central() {
    let icn = "w (8;q|1;q) K0,0|k7,7|Q4,4";
    let game = position(icn);

    let wk = Some(Coordinate::new(0, 0));
    let bk = Some(Coordinate::new(7, 7));
    let score = evaluate_queen(
        &game,
        4,
        4,
        PlayerColor::White,
        &wk,
        &bk,
        MAX_PHASE,
        &[],
        &[],
    );
    assert!(score.abs() < 2000, "Queen score should be reasonable");
}

#[test]
fn test_pawn_structure_isolated_pawn() {
    let mut cache = PawnCache::new();
    let isolated_icn = "w (8;q|1;q) K5,1|k5,8|P4,4";
    let game = position(isolated_icn);
    clear_pawn_cache(&mut cache);
    let isolated_score = evaluate_pawn_structure(&game, &mut cache);

    let supported_icn = "w (8;q|1;q) K5,1|k5,8|P4,4|P3,3|P5,3";
    let game = position(supported_icn);
    clear_pawn_cache(&mut cache);
    let supported_score = evaluate_pawn_structure(&game, &mut cache);

    assert!(
        supported_score > isolated_score,
        "Supported pawns should be better than isolated"
    );
}

#[test]
fn test_outpost_bonus() {
    let icn_no_support = "w (8;q|1;q) K0,0|k0,10|N4,4";
    let game = position(icn_no_support);
    assert_eq!(game.board.pieces.len(), 3);
    let score_no_support = evaluate_knight(4, 4, PlayerColor::White, None, 0, &[], &[]);

    let icn_supported = "w (8;q|1;q) K0,0|k0,10|N4,4|P3,3";
    let game = position(icn_supported);
    assert_eq!(game.board.pieces.len(), 4);
    let white_pawns = vec![(3, 3)];
    let score_supported = evaluate_knight(4, 4, PlayerColor::White, None, 0, &white_pawns, &[]);

    println!(
        "No Support: {}, Supported: {}",
        score_no_support, score_supported
    );
    assert!(
        score_supported > score_no_support,
        "Supported knight should have higher score"
    );
    assert_eq!(
        score_supported - score_no_support,
        EG_OUTPOST_BONUS,
        "Bonus should match EG_OUTPOST_BONUS in endgame"
    );
}

#[test]
fn test_candidate_passer_bonus() {
    let mut cache = PawnCache::new();
    let icn = "w (8;q|1;q) K0,0|k0,10|P4,4|p3,5|P5,3";
    let game = position(icn);
    clear_pawn_cache(&mut cache);
    let score = evaluate_pawn_structure(&game, &mut cache);
    assert!(score > 0, "Candidate passer should provide positive score");
}

#[test]
fn test_passed_pawn_advancement() {
    let mut cache = PawnCache::new();
    let unsafe_icn = "w (8;q|1;q) K0,0|k10,10|P4,4|p3,6";
    let game = position(unsafe_icn);
    clear_pawn_cache(&mut cache);
    let score_unsafe = evaluate_pawn_structure(&game, &mut cache);

    let safe_icn = "w (8;q|1;q) K0,0|k10,10|P4,4";
    let game = position(safe_icn);
    clear_pawn_cache(&mut cache);
    let score_safe = evaluate_pawn_structure(&game, &mut cache);

    assert!(
        score_safe > score_unsafe,
        "Safe-to-advance passed pawn should score higher than unsafe"
    );
}

#[test]
fn test_backward_isolated_penalties() {
    let mut cache = PawnCache::new();
    let connected_icn = "w (8;q|1;q) K0,0|k0,10|P4,4|P5,5";
    let game = position(connected_icn);
    clear_pawn_cache(&mut cache);
    let score_good = evaluate_pawn_structure(&game, &mut cache);

    let isolated_icn = "w (8;q|1;q) K0,0|k0,10|P4,4|P8,4";
    let game = position(isolated_icn);
    clear_pawn_cache(&mut cache);
    let score_isolated = evaluate_pawn_structure(&game, &mut cache);

    let backward_icn = "w (8;q|1;q) K0,0|k0,10|P4,4|P5,5|p3,6";
    let game = position(backward_icn);
    clear_pawn_cache(&mut cache);
    let score_backward = evaluate_pawn_structure(&game, &mut cache);

    assert!(
        score_good > score_backward,
        "Backward pawn should score lower than free connected. Good: {}, Backward: {}",
        score_good,
        score_backward
    );
    assert!(
        score_good > score_isolated,
        "Isolated pawn should score lower than connected. Good: {}, Isolated: {}",
        score_good,
        score_isolated
    );
}

#[test]
fn test_king_open_file_penalty() {
    let mut ctx = EvalContext::new();
    let open_icn = "w (8;q|1;q) K0,0|k0,10|P5,5";
    let game = position(open_icn);
    clear_pawn_cache(&mut ctx.pawn_cache);
    let score_open = evaluate(&game, &plain(), &mut ctx);

    let closed_icn = "w (8;q|1;q) K0,0|k0,10|P5,5|P0,1";
    let game = position(closed_icn);
    clear_pawn_cache(&mut ctx.pawn_cache);
    let score_closed = evaluate(&game, &plain(), &mut ctx);

    assert!(
        score_closed > score_open,
        "Shielded king should score higher than open file king. Open: {}, Closed: {}",
        score_open,
        score_closed
    );
}

fn create_chess_game(pieces: Vec<(i64, i64, Piece)>) -> GameState {
    let mut game = game_of(pieces, PlayerColor::White, 8, 1);
    game.variant = Some(Variant::Chess);
    game
}

fn standard_chess_opening() -> Vec<(i64, i64, Piece)> {
    let back = [
        PieceType::Rook,
        PieceType::Knight,
        PieceType::Bishop,
        PieceType::Queen,
        PieceType::King,
        PieceType::Bishop,
        PieceType::Knight,
        PieceType::Rook,
    ];
    let mut pieces = Vec::new();
    for file in 1..=8i64 {
        let t = back[(file - 1) as usize];
        pieces.push((file, 2, Piece::new(PieceType::Pawn, PlayerColor::White)));
        pieces.push((file, 7, Piece::new(PieceType::Pawn, PlayerColor::Black)));
        pieces.push((file, 1, Piece::new(t, PlayerColor::White)));
        pieces.push((file, 8, Piece::new(t, PlayerColor::Black)));
    }
    pieces
}

#[test]
fn test_evaluate_starting_position() {
    let mut game = create_chess_game(standard_chess_opening());
    game.turn = PlayerColor::White;
    let score = chess::evaluate(&game);
    assert_eq!(score, 0, "Starting position should be perfectly equal");
}

#[test]
fn test_evaluate_material_advantage() {
    let mut game = create_chess_game(vec![
        (5, 1, Piece::new(PieceType::King, PlayerColor::White)),
        (5, 8, Piece::new(PieceType::King, PlayerColor::Black)),
        (4, 4, Piece::new(PieceType::Queen, PlayerColor::White)),
    ]);
    game.turn = PlayerColor::White;
    let score = chess::evaluate(&game);
    assert!(
        score > 800,
        "White should have significant advantage with extra queen"
    );
}

#[test]
fn chess_mobility_counts_reachable_squares() {
    let game = create_chess_game(vec![
        (4, 4, Piece::new(PieceType::Rook, PlayerColor::White)),
        (4, 6, Piece::new(PieceType::Pawn, PlayerColor::Black)),
        (2, 4, Piece::new(PieceType::Pawn, PlayerColor::White)),
    ]);
    let rook = Piece::new(PieceType::Rook, PlayerColor::White);
    // Two up with the capture, one left, four right, three down.
    assert_eq!(chess::count_mobility(&game.board, 4, 4, rook), 10);
}

#[test]
fn stored_pawn_scores_are_found_again() {
    let mut cache = PawnCache::new();
    assert_eq!(cache.probe(7), None);
    cache.store(7, 42);
    assert_eq!(cache.probe(7), Some(42));
    cache.store(7 + 16384, 43);
    assert_eq!(cache.probe(7), Some(42));
    assert_eq!(cache.probe(7 + 16384), Some(43));
    cache.store(7 + 2 * 16384, 44);
    assert_eq!(cache.probe(7), None);
    assert_eq!(cache.probe(7 + 16384), Some(43));
    cache.store(8, 1);
    assert_eq!(cache.probe(7 + 2 * 16384), Some(44));
    clear_pawn_cache(&mut cache);
    assert_eq!(cache.probe(8), None);
}

#[test]
fn tracing_does_not_change_the_score() {
    let game = position("w (8;q|1;q) K5,1|k5,8|Q4,4|r2,2|P3,3|p6,6|N1,1");
    let mut with = EvalContext::new();
    let mut without = EvalContext::new();
    let mut trace = ActiveTrace { rows: Vec::new() };
    let a = evaluate_inner_traced(&game, &plain(), &mut trace, &mut with);
    let b = evaluate_inner_traced(&game, &plain(), &mut NoTrace, &mut without);
    assert_eq!(a, b);
    assert!(!trace.rows.is_empty());
    let mut ctx = EvalContext::new();
    let again = debug_evaluate(&game, &plain(), &mut ctx);
    assert_eq!(again.rows.len(), trace.rows.len());
}

#[test]
fn score_changes_sign_with_the_side_to_move() {
    let mut ctx = EvalContext::new();
    let mut game = position("w (8;q|1;q) K5,1|k5,8|Q4,4|p6,6");
    let white = evaluate_inner(&game, &plain(), &mut ctx);
    game.turn = PlayerColor::Black;
    let black = evaluate_inner(&game, &plain(), &mut ctx);
    assert_eq!(white, -black);
    assert!(white > 0);
}

#[test]
fn dead_draws_score_zero_and_others_are_divided() {
    let mut ctx = EvalContext::new();
    let game = position("w (8;q|1;q) K5,1|k5,8|Q4,4");
    let full = evaluate(&game, &plain(), &mut ctx);
    let dead = EndgameTerms { insufficient: Some(0), white_mop_up: None, black_mop_up: None };
    assert_eq!(evaluate(&game, &dead, &mut ctx), 0);
    let damped = EndgameTerms { insufficient: Some(4), white_mop_up: None, black_mop_up: None };
    assert_eq!(evaluate(&game, &damped, &mut ctx), full / 4);
}

#[test]
fn pieces_have_their_values() {
    assert_eq!(get_piece_value(PieceType::Pawn), 100);
    assert_eq!(get_piece_value(PieceType::Queen), 1350);
    assert_eq!(get_piece_value(PieceType::Void), 0);
    assert_eq!(taper(100, 20, MAX_PHASE), 100);
    assert_eq!(taper(100, 20, 0), 20);
}

#[test]
fn order_of_pieces_does_not_matter() {
    let icn = "w (8;q|1;q) K0,0|k9,9|P5,5|P2,7|P2,3|P3,4|p4,4|p1,6|p6,7";
    let game = position(icn);
    let mut cache = PawnCache::new();
    let score = evaluate_pawn_structure(&game, &mut cache);
    let mut pieces = game.board.pieces.clone();
    for _ in 0..pieces.len() {
        pieces.rotate_left(1);
        let mut turned = pieces.clone();
        turned.reverse();
        for board in [pieces.clone(), turned] {
            let other = game_of(board, PlayerColor::White, 8, 1);
            let mut cache = PawnCache::new();
            assert_eq!(evaluate_pawn_structure(&other, &mut cache), score);
        }
    }
    assert!(has_pawn_at(&[(2, 3), (2, 7), (5, 5)], 2, 7));
    assert!(!has_pawn_at(&[(2, 3), (2, 7), (5, 5)], 2, 6));
}

#[test]
fn listing_order_does_not_change_scores() {
    let icn = "w (8;q|1;q) K0,0|k9,9|Q3,3|q0,7|B2,2|N5,5|n6,6|R-4,0|r9,2|P2,7|P2,3|P3,4|p4,4|p1,6";
    let game = position(icn);
    let score = evaluate(&game, &plain(), &mut EvalContext::new());
    let standard = standard_chess_opening();
    let opening = chess::evaluate(&create_chess_game(standard.clone()));
    let mut pieces = game.board.pieces.clone();
    for _ in 0..pieces.len() {
        pieces.rotate_left(1);
        let mut turned = pieces.clone();
        turned.reverse();
        for board in [pieces.clone(), turned] {
            let other = game_of(board, PlayerColor::White, 8, 1);
            assert_eq!(evaluate(&other, &plain(), &mut EvalContext::new()), score);
            assert_eq!(chess::evaluate(&other), chess::evaluate(&game));
        }
    }
    let mut backwards = standard;
    backwards.reverse();
    assert_eq!(chess::evaluate(&create_chess_game(backwards)), opening);
}

#[test]
fn features_count_and_reset() {
    let mut ctx = EvalContext::new();
    let game = position("w (8;q|1;q) K0,0|k9,9|B2,2|B3,2|R5,5|r6,6|Q1,7");
    evaluate_inner(&game, &plain(), &mut ctx);
    let seen = snapshot_eval_features(&ctx.features);
    assert_eq!(seen.bishop_pair_bonus, 1);
    reset_eval_features(&mut ctx.features);
    assert_eq!(snapshot_eval_features(&ctx.features), EvalFeatures::default());
}

#[test]
fn mop_up_needs_a_bare_king() {
    let game = position("w (8;q|1;q) K0,0|k9,9|Q5,5");
    assert_eq!(
        mop_up_sides(&game),
        Some((PlayerColor::White, PlayerColor::Black))
    );
    assert_eq!(compute_mop_up_term(&game, Some(50), 200), 100);
    assert_eq!(compute_mop_up_term(&game, None, 200), 0);
    let mut other = position("w (8;q|1;q) K0,0|k9,9|Q5,5");
    other.turn = PlayerColor::Black;
    assert_eq!(compute_mop_up_term(&other, Some(50), 200), -100);
}

#[test]
fn trace_table_has_a_row_for_each_term_and_totals() {
    let trace = ActiveTrace {
        rows: vec![
            (String::from("Material"), 150, -25),
            (String::from("A term with a name that is long"), -7, 100000),
        ],
    };
    let row = |term: &str, w: i32, b: i32| {
        format!(
            "{:<25} | {:>10.2} | {:>10.2} | {:>10.2}",
            term,
            w as f64 / 100.0,
            b as f64 / 100.0,
            (w - b) as f64 / 100.0
        )
    };
    assert_eq!(
        trace.table(),
        vec![
            row("Material", 150, -25),
            row("A term with a name that is long", -7, 100000),
            row("TOTAL", 143, 99975),
        ]
    );
    assert_eq!(
        ActiveTrace { rows: Vec::new() }.table(),
        vec![row("TOTAL", 0, 0)]
    );
}

#[test]
fn mirrored_chess_positions_score_alike() {
    let pieces = vec![
        (5, 1, Piece::new(PieceType::King, PlayerColor::White)),
        (7, 8, Piece::new(PieceType::King, PlayerColor::Black)),
        (4, 4, Piece::new(PieceType::Queen, PlayerColor::White)),
        (3, 3, Piece::new(PieceType::Knight, PlayerColor::White)),
        (3, 5, Piece::new(PieceType::Pawn, PlayerColor::White)),
        (1, 2, Piece::new(PieceType::Pawn, PlayerColor::White)),
        (6, 7, Piece::new(PieceType::Pawn, PlayerColor::Black)),
        (6, 6, Piece::new(PieceType::Bishop, PlayerColor::Black)),
        (1, 8, Piece::new(PieceType::Rook, PlayerColor::Black)),
    ];
    let mirrored = pieces
        .iter()
        .map(|(x, y, p)| (*x, 9 - *y, Piece::new(p.piece_type, p.color.opponent())))
        .collect();
    let mut a = create_chess_game(pieces);
    let mut b = create_chess_game(mirrored);
    a.turn = PlayerColor::White;
    b.turn = PlayerColor::Black;
    assert_ne!(chess::evaluate(&a), 0);
    assert_eq!(chess::evaluate(&a), chess::evaluate(&b));
}

#[test]
fn blends_lie_between_their_weights() {
    assert_eq!(taper(10, 70, MAX_PHASE), 10);
    assert_eq!(taper(10, 70, 0), 70);
    assert_eq!(taper(10, 70, 12), 40);
    assert_eq!(taper(-7, 3, 23), -6);
}

#[test]
fn lines_have_no_direction() {
    let game = position("w (8;q|1;q) K1,1|k1,8|N1,5|b4,4");
    let squares = [(1, 1), (1, 8), (4, 4), (1, 5), (8, 8), (2, 7)];
    for (ax, ay) in squares {
        for (bx, by) in squares {
            let (a, b) = (Coordinate::new(ax, ay), Coordinate::new(bx, by));
            assert_eq!(
                is_clear_line_between(&game.board, &a, &b),
                is_clear_line_between(&game.board, &b, &a)
            );
            assert_eq!(is_between(ax, ay, bx), is_between(ax, bx, ay));
        }
    }
    assert!(!is_clear_line_between(
        &game.board,
        &Coordinate::new(1, 1),
        &Coordinate::new(8, 8)
    ));
}

#[test]
fn pawn_structure_scores_are_kept() {
    let game = position("w (8;q|1;q) K1,1|k8,8|P2,4|P3,5|p6,6|p6,5");
    let mut cache = PawnCache::new();
    let first = evaluate_pawn_structure(&game, &mut cache);
    let second = evaluate_pawn_structure(&game, &mut cache);
    assert_eq!(first, second);
    assert_ne!(first, 0);
}

#[test]
fn table_squares_are_read_from_both_sides() {
    assert_eq!(chess::coord_to_pst_index(1, 8), 0);
    assert_eq!(chess::coord_to_pst_index(8, 1), 63);
    assert_eq!(chess::coord_to_pst_index(-5, 100), 0);
    for x in 1..=8 {
        for y in 1..=8 {
            assert_eq!(
                chess::coord_to_pst_index(x, 9 - y),
                chess::coord_to_pst_index(x, y) ^ 56
            );
        }
    }
}

#[test]
fn leapers_are_drawn_to_the_center_wherever_it_is() {
    let far = i64::MAX - 3;
    let center = Coordinate::new(far, far);
    let score = |x: i64, y: i64| {
        evaluate_leaper_positioning(x, y, PlayerColor::White, Some(&center), 250)
    };
    assert_eq!(score(far, far), 11);
    assert_eq!(score(far - 4, far + 2), 7);
    assert_eq!(score(far - 10, far), 1);
    assert_eq!(score(far - 11, far), 0);
    assert_eq!(score(0, 0), 0);
    assert_eq!(
        evaluate_leaper_positioning(3, 4, PlayerColor::Black, None, 250),
        0
    );
}
