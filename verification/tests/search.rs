use infinite_chess::board::{Board, Coordinate, Piece, PieceType, PlayerColor};
use infinite_chess::evaluation::base::{evaluate, EndgameTerms, EvalContext};
use infinite_chess::evaluation::values::{get_piece_phase, get_piece_value};
use infinite_chess::game::GameState;
use infinite_chess::moves::{Move, MoveList, SpatialIndices};
use infinite_chess::search::deepening::{
    iteration_depth, judge_start, legal_root_moves, start_depth, IterationStart,
};
use infinite_chess::search::entry::{
    get_best_move, get_best_move_limited, get_best_move_parallel, get_best_move_threaded,
    get_best_moves_multipv, get_current_tt_stats, negamax_node_count_for_depth,
    reset_search_state, set_global_params, SearchState,
};
use infinite_chess::search::host::SearchHost;
use infinite_chess::search::limited::draw_numbers;
use infinite_chess::search::node::negamax;
use infinite_chess::search::quiescence::quiescence;
use infinite_chess::search::root::negamax_root;
use infinite_chess::search::searcher::{ClockReading, Searcher};
use infinite_chess::search::tt_defs::{TTFlag, TTProbeParams, TTProbeResult, TTStoreParams};
use infinite_chess::search::{
    mate_in, mated_in, MultiPVResult, NegamaxContext, NodeType, PVLine, Prng, SearchStats,
    INFINITY, MATE_SCORE, NO_VALUE,
};
use std::collections::HashMap;
use std::time::Instant;

const LOW: i64 = -8;
const HIGH: i64 = 12;

fn mix(mut h: u64) -> u64 {
    h = (h ^ (h >> 30)).wrapping_mul(0xbf58476d1ce4e5b9);
    h = (h ^ (h >> 27)).wrapping_mul(0x94d049bb133111eb);
    h ^ (h >> 31)
}

fn key(x: i64, y: i64, p: &Piece) -> u64 {
    let side = if p.color == PlayerColor::White { 1 } else { 2 };
    mix((x as u64).wrapping_mul(0x9e3779b97f4a7c15)
        ^ mix((y as u64).wrapping_mul(31) ^ (p.piece_type.index() as u64) << 32 ^ side << 48))
}

fn game_of(pieces: Vec<(i64, i64, Piece)>, turn: PlayerColor) -> GameState {
    let mut material = 0;
    let mut phase = 0;
    let mut royals: [Vec<Coordinate>; 2] = [Vec::new(), Vec::new()];
    let mut counts = [0u32; 2];
    let mut pawns = [0u32; 2];
    let mut hash = if turn == PlayerColor::White { 0 } else { 0x5a5a5a5a5a5a5a5a };
    let mut pawn_hash = 1u64;
    let mut material_hash = 3u64;
    for (x, y, p) in &pieces {
        let side = if p.color == PlayerColor::White { 0 } else { 1 };
        let value = get_piece_value(p.piece_type);
        material += if side == 0 { value } else { -value };
        phase += get_piece_phase(p.piece_type);
        counts[side] += 1;
        hash ^= key(*x, *y, p);
        material_hash = material_hash.wrapping_add(key(0, 0, p));
        if p.piece_type == PieceType::King {
            royals[side].push(Coordinate::new(*x, *y));
        }
        if p.piece_type == PieceType::Pawn {
            pawns[side] += 1;
            pawn_hash ^= key(*x, *y, p);
        }
    }
    let board = Board { pieces };
    let spatial_indices = SpatialIndices::from_board(&board);
    let [white_royals, black_royals] = royals;
    GameState {
        board,
        turn,
        material_score: material,
        white_king_pos: white_royals.first().copied(),
        black_king_pos: black_royals.first().copied(),
        total_phase: phase,
        white_promo_rank: 8,
        black_promo_rank: 1,
        starting_squares: Vec::new(),
        white_piece_count: counts[0],
        black_piece_count: counts[1],
        white_pawn_count: pawns[0],
        black_pawn_count: pawns[1],
        white_non_pawn_material: counts[0] > pawns[0] + 1,
        black_non_pawn_material: counts[1] > pawns[1] + 1,
        spatial_indices,
        bounds: (LOW, HIGH, LOW, HIGH),
        hash,
        pawn_hash,
        material_hash,
        minor_hash: 0,
        white_nonpawn_hash: mix(hash),
        black_nonpawn_hash: mix(hash ^ 1),
        white_royals,
        black_royals,
        halfmove_clock: 0,
        en_passant: None,
        variant: None,
        move_rule_limit: Some(100),
    }
}

/// A small game on a bounded part of the board, with a table of its own.
struct Table {
    game: GameState,
    seen: Vec<u64>,
    entries: HashMap<u64, TTStoreParams>,
    ctx: EvalContext,
    started: Instant,
    iteration: Instant,
    budget: Option<u64>,
    reports: usize,
}

struct Taken {
    pieces: Vec<(i64, i64, Piece)>,
    turn: PlayerColor,
    halfmove_clock: u32,
}

struct Stages {
    moves: Vec<(Move, bool)>,
    next: usize,
    skip_quiets: bool,
}

const ALL: [(i64, i64); 8] = [
    (1, 0),
    (-1, 0),
    (0, 1),
    (0, -1),
    (1, 1),
    (1, -1),
    (-1, 1),
    (-1, -1),
];

const JUMPS: [(i64, i64); 8] = [
    (1, 2),
    (2, 1),
    (-1, 2),
    (-2, 1),
    (1, -2),
    (2, -1),
    (-1, -2),
    (-2, -1),
];

fn steps(t: PieceType) -> (Vec<(i64, i64)>, bool) {
    match t {
        PieceType::King => (ALL.to_vec(), false),
        PieceType::Queen => (ALL.to_vec(), true),
        PieceType::Rook => (ALL[..4].to_vec(), true),
        PieceType::Bishop => (ALL[4..].to_vec(), true),
        PieceType::Knight => (JUMPS.to_vec(), false),
        _ => (Vec::new(), false),
    }
}

fn on_board(x: i64, y: i64) -> bool {
    (LOW..=HIGH).contains(&x) && (LOW..=HIGH).contains(&y)
}

impl Table {
    fn new(pieces: Vec<(i64, i64, Piece)>) -> Table {
        Table {
            game: game_of(pieces, PlayerColor::White),
            seen: Vec::new(),
            entries: HashMap::new(),
            ctx: EvalContext::new(),
            started: Instant::now(),
            iteration: Instant::now(),
            budget: None,
            reports: 0,
        }
    }

    fn moves_of(&self, color: PlayerColor) -> Vec<Move> {
        let mut moves = Vec::new();
        for (x, y, p) in &self.game.board.pieces {
            if p.color != color {
                continue;
            }
            let from = Coordinate::new(*x, *y);
            if p.piece_type == PieceType::Pawn {
                let (dy, last) = if color == PlayerColor::White {
                    (1, self.game.white_promo_rank)
                } else {
                    (-1, self.game.black_promo_rank)
                };
                for dx in [0, -1, 1] {
                    let to = Coordinate::new(x + dx, y + dy);
                    if !on_board(to.x, to.y) {
                        continue;
                    }
                    let there = self.game.board.get_piece(to.x, to.y);
                    let fits = match there {
                        Some(t) => dx != 0 && t.color != color,
                        None => dx == 0,
                    };
                    if fits {
                        let mut m = Move::new(from, to, *p);
                        if to.y == last {
                            m.promotion = Some(PieceType::Queen);
                        }
                        moves.push(m);
                    }
                }
                continue;
            }
            let (dirs, slides) = steps(p.piece_type);
            for (dx, dy) in dirs {
                let mut tx = x + dx;
                let mut ty = y + dy;
                while on_board(tx, ty) {
                    let there = self.game.board.get_piece(tx, ty);
                    if there.is_none() || there.unwrap().color != color {
                        moves.push(Move::new(from, Coordinate::new(tx, ty), *p));
                    }
                    if there.is_some() || !slides {
                        break;
                    }
                    tx += dx;
                    ty += dy;
                }
            }
        }
        moves
    }

    fn attacked(&self, at: &Coordinate, by: PlayerColor) -> bool {
        for (x, y, p) in &self.game.board.pieces {
            if p.color != by {
                continue;
            }
            let (dx, dy) = (at.x - x, at.y - y);
            let hits = match p.piece_type {
                PieceType::Pawn => {
                    dx.abs() == 1 && dy == if by == PlayerColor::White { 1 } else { -1 }
                }
                PieceType::King => dx.abs().max(dy.abs()) == 1,
                PieceType::Knight => dx.abs() * dy.abs() == 2,
                t => {
                    let straight = dx == 0 || dy == 0;
                    let slanted = dx.abs() == dy.abs();
                    let fits = match t {
                        PieceType::Queen => straight || slanted,
                        PieceType::Rook => straight,
                        PieceType::Bishop => slanted,
                        _ => false,
                    };
                    fits && (dx, dy) != (0, 0) && {
                        let (sx, sy) = (dx.signum(), dy.signum());
                        let (mut cx, mut cy) = (x + sx, y + sy);
                        while (cx, cy) != (at.x, at.y)
                            && !self.game.board.is_occupied(cx, cy)
                        {
                            cx += sx;
                            cy += sy;
                        }
                        (cx, cy) == (at.x, at.y)
                    }
                }
            };
            if hits {
                return true;
            }
        }
        false
    }

    fn in_check(&self, color: PlayerColor) -> bool {
        let royals = if color == PlayerColor::White {
            &self.game.white_royals
        } else {
            &self.game.black_royals
        };
        royals.iter().any(|k| self.attacked(k, color.opponent()))
    }

    fn is_capture(&self, m: &Move) -> bool {
        self.game.board.is_occupied(m.to.x, m.to.y)
    }

    fn rank(&self, m: &Move) -> i64 {
        let won = match self.game.board.get_piece(m.to.x, m.to.y) {
            Some(p) => get_piece_value(p.piece_type) as i64,
            None => 0,
        };
        if won > 0 {
            10_000 + won * 10 - get_piece_value(m.piece.piece_type) as i64 / 10
        } else {
            0
        }
    }

    fn stages(&self, tt_move: Option<Move>, captures_only: bool) -> Stages {
        let mut moves: Vec<(i64, Move, bool)> = self
            .moves_of(self.game.turn)
            .into_iter()
            .map(|m| {
                let first = tt_move.is_some_and(|t| t.from == m.from && t.to == m.to);
                let rank = if first { 1_000_000 } else { self.rank(&m) };
                (rank, m, self.is_capture(&m))
            })
            .filter(|e| !captures_only || e.2)
            .collect();
        moves.sort_by_key(|e| -e.0);
        Stages {
            moves: moves.into_iter().map(|e| (e.1, e.2)).collect(),
            next: 0,
            skip_quiets: false,
        }
    }

    fn replace(&mut self, pieces: Vec<(i64, i64, Piece)>, turn: PlayerColor, clock: u32) {
        self.game = game_of(pieces, turn);
        self.game.halfmove_clock = clock;
    }
}

impl SearchHost for Table {
    type Undo = Taken;
    type Generator = Stages;

    fn game(&self) -> &GameState {
        &self.game
    }

    fn fork(&self) -> Self {
        let mut other = Table::new(self.game.board.pieces.clone());
        other.replace(
            self.game.board.pieces.clone(),
            self.game.turn,
            self.game.halfmove_clock,
        );
        other.entries = self.entries.clone();
        other
    }

    fn prepare(&mut self) {}

    fn make_move(&mut self, m: &Move) -> Taken {
        let taken = Taken {
            pieces: self.game.board.pieces.clone(),
            turn: self.game.turn,
            halfmove_clock: self.game.halfmove_clock,
        };
        self.seen.push(self.game.hash);
        let mut pieces: Vec<(i64, i64, Piece)> = taken
            .pieces
            .iter()
            .copied()
            .filter(|(x, y, _)| {
                (*x, *y) != (m.from.x, m.from.y) && (*x, *y) != (m.to.x, m.to.y)
            })
            .collect();
        let piece = match m.promotion {
            Some(t) => Piece::new(t, m.piece.color),
            None => m.piece,
        };
        let reset = pieces.len() + 1 < taken.pieces.len() || m.piece.piece_type == PieceType::Pawn;
        pieces.push((m.to.x, m.to.y, piece));
        let clock = if reset { 0 } else { taken.halfmove_clock + 1 };
        self.replace(pieces, taken.turn.opponent(), clock);
        taken
    }

    fn undo_move(&mut self, _m: &Move, undo: Taken) {
        self.seen.pop();
        self.replace(undo.pieces, undo.turn, undo.halfmove_clock);
    }

    fn make_null_move(&mut self) {
        self.seen.push(self.game.hash);
        let turn = self.game.turn.opponent();
        let clock = self.game.halfmove_clock;
        self.replace(self.game.board.pieces.clone(), turn, clock + 1);
    }

    fn unmake_null_move(&mut self) {
        self.seen.pop();
        let turn = self.game.turn.opponent();
        let clock = self.game.halfmove_clock;
        self.replace(self.game.board.pieces.clone(), turn, clock - 1);
    }

    fn get_legal_moves(&self) -> MoveList {
        self.moves_of(self.game.turn)
    }

    fn is_move_illegal(&self) -> bool {
        self.in_check(self.game.turn.opponent())
    }

    fn is_legal_fast(&self, m: &Move, in_check: bool) -> Option<bool> {
        if m.piece.color != self.game.turn {
            return Some(false);
        }
        let _ = in_check;
        None
    }

    fn is_in_check(&self) -> bool {
        self.in_check(self.game.turn)
    }

    fn must_escape_check(&self) -> bool {
        true
    }

    fn has_pieces(&self, color: PlayerColor) -> bool {
        self.game.board.pieces.iter().any(|e| e.2.color == color)
    }

    fn has_non_pawn_material(&self, color: PlayerColor) -> bool {
        if color == PlayerColor::White {
            self.game.white_non_pawn_material
        } else {
            self.game.black_non_pawn_material
        }
    }

    fn has_lost_by_royal_capture(&self) -> bool {
        false
    }

    fn upcoming_repetition(&self, _ply: usize) -> bool {
        false
    }

    fn is_repetition(&self, _ply: usize) -> bool {
        self.seen.contains(&self.game.hash)
    }

    fn is_draw(&self, _ply: usize, _in_check: bool) -> bool {
        self.game.halfmove_clock >= 100 || self.seen.contains(&self.game.hash)
    }

    fn get_evasion_moves(&self) -> MoveList {
        self.moves_of(self.game.turn)
    }

    fn get_quiescence_captures(&self) -> MoveList {
        let mut moves = self.moves_of(self.game.turn);
        moves.retain(|m| self.is_capture(m));
        moves
    }

    fn move_gives_check(&self, _m: &Move) -> bool {
        false
    }

    fn get_piece_value(&self, piece_type: PieceType, _color: PlayerColor) -> i32 {
        get_piece_value(piece_type)
    }

    fn static_exchange_eval(&self, m: &Move) -> i32 {
        let won = match self.game.board.get_piece(m.to.x, m.to.y) {
            Some(p) => get_piece_value(p.piece_type),
            None => 0,
        };
        let risk = if self.attacked(&m.to, m.piece.color.opponent()) {
            get_piece_value(m.piece.piece_type)
        } else {
            0
        };
        won - risk
    }

    fn evaluate(&mut self) -> i32 {
        let terms = EndgameTerms {
            insufficient: None,
            white_mop_up: None,
            black_mop_up: None,
        };
        evaluate(&self.game, &terms, &mut self.ctx)
    }

    fn get_lmr(&self, depth: usize, moves: usize) -> i32 {
        ((depth as f64).ln() * (moves as f64).ln() / 2.0) as i32
    }

    fn capture_rank(&self, m: &Move) -> i64 {
        self.rank(m)
    }

    fn root_rank(&self, _searcher: &Searcher, m: &Move, tt_move: &Option<Move>) -> i64 {
        match tt_move {
            Some(t) if t.from == m.from && t.to == m.to => 1_000_000,
            _ => self.rank(m),
        }
    }

    fn start_moves(
        &mut self,
        _searcher: &Searcher,
        tt_move: Option<Move>,
        _ply: usize,
        _depth: usize,
    ) -> Stages {
        self.stages(tt_move, false)
    }

    fn start_probcut(
        &mut self,
        _searcher: &Searcher,
        tt_move: Option<Move>,
        threshold: i32,
    ) -> Stages {
        let mut s = self.stages(tt_move, true);
        s.moves.retain(|e| self.static_exchange_eval(&e.0) >= threshold);
        s
    }

    fn next_move(&mut self, _searcher: &Searcher, moves: &mut Stages) -> Option<Move> {
        while moves.next < moves.moves.len() {
            let (m, capture) = moves.moves[moves.next];
            moves.next += 1;
            if capture || !moves.skip_quiets {
                return Some(m);
            }
        }
        None
    }

    fn skip_quiet_moves(&mut self, moves: &mut Stages) {
        moves.skip_quiets = true;
    }

    fn uses_shared_tt(&self) -> bool {
        false
    }

    fn probe_shared(&self, _params: &TTProbeParams) -> Option<TTProbeResult> {
        None
    }

    fn store_shared(&mut self, _params: &TTStoreParams) {}

    fn probe_local(&self, params: &TTProbeParams) -> Option<TTProbeResult> {
        let e = self.entries.get(&params.hash)?;
        let score = if e.flag == TTFlag::NoBound {
            NO_VALUE
        } else if e.score > MATE_SCORE {
            e.score - params.ply as i32
        } else if e.score < -MATE_SCORE {
            e.score + params.ply as i32
        } else {
            e.score
        };
        Some(TTProbeResult {
            cutoff_score: score,
            tt_score: score,
            eval: e.static_eval,
            depth: e.depth.min(255) as u8,
            flag: e.flag,
            is_pv: e.is_pv,
            best_move: e.best_move,
        })
    }

    fn store_local(&mut self, params: &TTStoreParams) {
        let mut p = *params;
        if p.flag != TTFlag::NoBound {
            if p.score > MATE_SCORE {
                p.score += p.ply as i32;
            } else if p.score < -MATE_SCORE {
                p.score -= p.ply as i32;
            }
        } else if self.entries.contains_key(&p.hash) {
            return;
        }
        self.entries.insert(p.hash, p);
    }

    fn probe_move(&self, hash: u64) -> Option<Move> {
        self.entries.get(&hash).and_then(|e| e.best_move)
    }

    fn tt_capacity(&self) -> usize {
        1 << 20
    }

    fn tt_used_entries(&self) -> usize {
        self.entries.len()
    }

    fn tt_fill_permille(&self) -> u32 {
        (self.entries.len() * 1000 >> 20) as u32
    }

    fn clear_tt(&mut self) {
        self.entries.clear();
    }

    fn start_clock(&mut self) {
        self.started = Instant::now();
        self.iteration = self.started;
        self.budget = None;
    }

    fn start_iteration(&mut self) {
        self.iteration = Instant::now();
    }

    fn read_clock(&self) -> ClockReading {
        ClockReading {
            elapsed_ms: self.started.elapsed().as_millis() as u64,
            iteration_ms: self.iteration.elapsed().as_millis() as u64,
            budget_us: self.budget.map(|b| b * 1000),
        }
    }

    fn revise_budget(
        &mut self,
        searcher: &Searcher,
        _depth: usize,
        _best_score: i32,
        _legal_moves: usize,
    ) -> bool {
        let budget = searcher.hot.optimum_time_ms as u64;
        self.budget = Some(budget);
        self.started.elapsed().as_millis() as u64 > budget
    }

    fn set_budget(&mut self, budget_ms: u128) {
        self.budget = Some(budget_ms as u64);
    }

    fn is_stop_requested(&self) -> bool {
        false
    }

    fn report(&mut self, _searcher: &Searcher, _depth: usize, _score: i32) {
        self.reports += 1;
    }

    fn report_lines(&mut self, _searcher: &Searcher, _depth: usize, _lines: &Vec<PVLine>) {
        self.reports += 1;
    }

    fn scale_draw(&self, bits: u64, limit: i32) -> i32 {
        (bits as f64 / u64::MAX as f64 * limit as f64) as i32
    }
}

fn white(t: PieceType) -> Piece {
    Piece::new(t, PlayerColor::White)
}

fn black(t: PieceType) -> Piece {
    Piece::new(t, PlayerColor::Black)
}

#[test]
fn searches_start_afresh() {
    let mut host = Table::new(vec![
        (0, 0, white(PieceType::King)),
        (9, 9, black(PieceType::King)),
    ]);
    let m = Move::new(
        Coordinate::new(0, 0),
        Coordinate::new(1, 1),
        white(PieceType::King),
    );
    let mut searcher = Searcher::new(1000);
    searcher.hot.nodes = 77;
    searcher.prev_score = 5;
    searcher.killers[4][0] = Some(m);
    searcher.history[3][3] = 12;
    searcher.new_search();
    assert_eq!(searcher.hot.nodes, 0);
    assert_eq!(searcher.prev_score, 0);
    assert_eq!(searcher.killers[4][0], None);
    assert_eq!(searcher.history[3][3], 12);
    assert_eq!(searcher.low_ply_history[1][7], 97);
    host.store_local(&TTStoreParams {
        hash: 7,
        depth: 1,
        flag: TTFlag::Exact,
        score: 3,
        static_eval: 3,
        is_pv: false,
        best_move: None,
        ply: 0,
    });
    assert_eq!(host.tt_used_entries(), 1);
    searcher.clear(&mut host);
    assert_eq!(host.tt_used_entries(), 0);
    assert_eq!(searcher.history[3][3], 0);
    assert_eq!(searcher.low_ply_history[1][7], 0);
    searcher.record_iteration(40);
    searcher.record_iteration(60);
    assert_eq!(searcher.hot.iter_values, [40, 60, 0, 0]);
    assert_eq!(searcher.hot.best_previous_average_score, 50);
}

#[test]
fn test_get_best_move_simple_position() {
    let mut host = Table::new(vec![
        (0, 0, white(PieceType::King)),
        (4, 4, white(PieceType::Queen)),
        (7, 7, black(PieceType::King)),
        (4, 7, black(PieceType::Rook)),
    ]);
    let mut state = SearchState::new();
    let result = get_best_move(&mut state, &mut host, 5, 1000, true, true);

    assert!(result.is_some(), "Should find a move");
    let (best_move, _eval, _stats) = result.unwrap();
    assert!(best_move.piece.piece_type != PieceType::Void);
}

#[test]
fn test_get_best_move_returns_result() {
    let mut host = Table::new(vec![
        (4, 1, white(PieceType::King)),
        (4, 8, black(PieceType::King)),
        (1, 1, white(PieceType::Rook)),
    ]);
    let mut state = SearchState::new();
    let result = get_best_move(&mut state, &mut host, 5, 1000, true, true);

    assert!(result.is_some(), "Should find a move");
    let (best_move, _eval, stats) = result.unwrap();
    assert!(best_move.piece.piece_type != PieceType::Void);
    assert!(stats.tt_capacity > 0);
}

#[test]
fn test_evaluate_with_search() {
    let mut host = Table::new(vec![
        (0, 0, white(PieceType::King)),
        (7, 7, black(PieceType::King)),
        (4, 2, white(PieceType::Rook)),
        (4, 7, black(PieceType::Rook)),
    ]);
    let static_eval = host.evaluate();
    assert!(
        static_eval.abs() < 500,
        "Balanced position eval should be near 0"
    );
}

#[test]
fn test_movelist_operations() {
    let mut moves = MoveList::new();
    assert!(moves.is_empty());

    let m = Move::new(
        Coordinate::new(4, 4),
        Coordinate::new(5, 6),
        Piece::new(PieceType::Knight, PlayerColor::White),
    );

    moves.push(m);
    assert_eq!(moves.len(), 1);
    assert!(!moves.is_empty());
}

#[test]
fn test_search_endgame_position() {
    let mut host = Table::new(vec![
        (0, 0, white(PieceType::King)),
        (4, 4, white(PieceType::Queen)),
        (7, 7, black(PieceType::King)),
    ]);
    let mut state = SearchState::new();
    let result = get_best_move(&mut state, &mut host, 3, 500, true, true);
    assert!(result.is_some(), "Should find a move in KQ vs K");

    let (best_move, eval, _stats) = result.unwrap();
    assert!(eval > 0, "White should be winning in KQ vs K");
    assert!(best_move.piece.piece_type != PieceType::Void);
}

#[test]
fn test_search_with_captures() {
    let mut host = Table::new(vec![
        (0, 0, white(PieceType::King)),
        (4, 4, white(PieceType::Rook)),
        (7, 7, black(PieceType::King)),
        (4, 7, black(PieceType::Pawn)),
    ]);
    let mut state = SearchState::new();
    let result = get_best_move(&mut state, &mut host, 4, 500, true, true);
    assert!(result.is_some());
}

#[test]
fn test_format_pv_empty() {
    let searcher = Searcher::new(1000);
    let host = Table::new(Vec::new());
    let codes = vec![String::new(); 32];
    let pv = searcher.format_pv(&host, 0, &codes);
    assert!(pv.is_empty());
}

#[test]
fn test_extract_pv() {
    let searcher = Searcher::new(1000);
    let host = Table::new(Vec::new());
    let pv = searcher.extract_pv_only(&host, 1);
    assert!(pv.is_empty());
}

#[test]
fn test_reset_search_state() {
    let mut state = SearchState::new();
    let mut host = Table::new(Vec::new());
    reset_search_state(&mut state, &mut host);
    assert!(state.searcher.is_none());
}

#[test]
fn test_multipv_search_functionality() {
    let mut host = Table::new(vec![
        (0, 0, white(PieceType::King)),
        (2, 2, white(PieceType::Rook)),
        (7, 7, black(PieceType::King)),
        (5, 5, white(PieceType::Pawn)),
    ]);
    let mut state = SearchState::new();
    let result =
        get_best_moves_multipv(&mut state, &mut host, 2, 500, 500, 2, true, false);

    assert!(!result.lines.is_empty());
    if result.lines.len() > 1 {
        assert!(
            result.lines[0].mv != result.lines[1].mv,
            "MultiPV moves should be unique"
        );
        assert!(
            result.lines[0].score >= result.lines[1].score,
            "MultiPV lines should be ordered by score"
        );
    }
}

#[test]
fn searches_leave_the_game_as_it_was() {
    let mut host = Table::new(vec![
        (0, 0, white(PieceType::King)),
        (2, 2, white(PieceType::Rook)),
        (7, 7, black(PieceType::King)),
        (5, 5, white(PieceType::Pawn)),
        (6, 3, black(PieceType::Knight)),
    ]);
    let mut pieces = host.game.board.pieces.clone();
    let key_of = |p: &(i64, i64, Piece)| (p.0, p.1, p.2.piece_type.index());
    pieces.sort_by_key(key_of);
    let (turn, hash) = (host.game.turn, host.game.hash);
    let mut state = SearchState::new();
    let found = get_best_move(&mut state, &mut host, 4, 100_000, true, false);
    assert!(found.is_some());
    let lines = get_best_moves_multipv(&mut state, &mut host, 3, 100_000, 100_000, 3, true, false);
    assert_eq!(lines.lines.len(), 3);
    let mut after = host.game.board.pieces.clone();
    after.sort_by_key(key_of);
    assert!(after == pieces);
    assert_eq!(host.game.hash, hash);
    assert!(host.game.turn == turn);
    assert!(host.seen.is_empty());
}

fn boxed_in_king() -> Vec<(i64, i64, Piece)> {
    let mut pieces = vec![(0, 0, black(PieceType::King))];
    for dx in -1..=1 {
        for dy in -1..=1 {
            if (dx, dy) != (0, 0) && (dx, dy) != (0, 1) {
                pieces.push((dx, dy, black(PieceType::Pawn)));
            }
        }
    }
    pieces.push((-5, -5, white(PieceType::King)));
    pieces.push((5, 5, white(PieceType::Rook)));
    pieces
}

#[test]
fn test_search_mate_in_one() {
    let mut host = Table::new(boxed_in_king());
    assert_eq!(
        host.game.white_piece_count, 2,
        "Should have 2 white pieces (King, Rook)"
    );
    assert!(
        host.game.black_piece_count >= 8,
        "Should have at least 8 black pieces"
    );
    assert!(
        !host.game.black_royals.is_empty(),
        "Black king position must be detected"
    );
    assert!(
        !host.game.white_royals.is_empty(),
        "White king position must be detected"
    );
    let moves = host.get_legal_moves();
    assert!(
        !moves.is_empty(),
        "White should have legal moves, found 0. Piece counts: W={}, B={}",
        host.game.white_piece_count,
        host.game.black_piece_count
    );
    assert!(!moves.is_empty(), "White should have legal moves, found 0");

    let mut state = SearchState::new();
    let result = get_best_move(&mut state, &mut host, 3, 2000, true, true);
    assert!(
        result.is_some(),
        "Search returned None even though legal moves exist"
    );
    let (best_move, score, _stats) = result.unwrap();

    assert_eq!(best_move.to.x, 0);
    assert_eq!(best_move.to.y, 5);

    assert!(
        score > 800000,
        "Should detect mate score (>800000), got {}",
        score
    );
}

#[test]
fn test_quiescence_search_depth() {
    let mut searcher = Searcher::new(1000);
    let mut host = Table::new(vec![
        (0, 0, white(PieceType::King)),
        (7, 7, black(PieceType::King)),
    ]);
    let alpha = -10000;
    let beta = 10000;
    let score = quiescence(&mut searcher, &mut host, 0, alpha, beta, NodeType::PV);
    assert!(score.abs() < 500);
    assert_eq!(searcher.hot.qnodes, 1);
}

#[test]
fn test_negamax_node_counts() {
    let mut host = Table::new(vec![
        (0, 0, white(PieceType::King)),
        (7, 7, black(PieceType::King)),
    ]);
    let nodes = negamax_node_count_for_depth(&mut host, 1);
    assert!(nodes > 0);
}

#[test]
fn deeper_counts_visit_more_nodes() {
    let pieces = vec![
        (0, 0, white(PieceType::King)),
        (3, 3, white(PieceType::Knight)),
        (7, 7, black(PieceType::King)),
    ];
    let one = negamax_node_count_for_depth(&mut Table::new(pieces.clone()), 1);
    let three = negamax_node_count_for_depth(&mut Table::new(pieces), 3);
    assert!(three > one);
}

#[test]
fn hanging_queen_is_taken() {
    let mut host = Table::new(vec![
        (0, 0, white(PieceType::King)),
        (2, 3, white(PieceType::Rook)),
        (9, 9, black(PieceType::King)),
        (2, 7, black(PieceType::Queen)),
    ]);
    let mut state = SearchState::new();
    let (m, score, stats) =
        get_best_move(&mut state, &mut host, 3, 2000, true, true).unwrap();
    assert_eq!((m.to.x, m.to.y), (2, 7));
    assert!(score > 0);
    let searcher = state.searcher.as_ref().unwrap();
    assert_eq!(stats.nodes, searcher.hot.nodes);
    assert_eq!(searcher.completed_depth, 3);
    assert_eq!(searcher.best_move_root, Some(m));
    let pv = searcher.extract_pv_only(&host, 3);
    assert_eq!(pv[0], m);
    assert!(pv.len() <= 3);
    assert_eq!(searcher.extract_pv_from_tt(&host, 2)[0], m);
    let codes = vec![String::from("?"); 32];
    assert!(searcher.format_pv(&host, 1, &codes) == "2,3->2,7");
}

#[test]
fn stalemate_and_mate_give_no_move() {
    // White to move is mated: the king in the corner of the playable area.
    let mut mated = Table::new(vec![
        (LOW, LOW, white(PieceType::King)),
        (LOW, LOW + 2, black(PieceType::King)),
        (LOW + 3, LOW, black(PieceType::Rook)),
    ]);
    let mut state = SearchState::new();
    assert!(get_best_move(&mut state, &mut mated, 3, 500, true, true).is_none());
    let lines = get_best_moves_multipv(&mut state, &mut mated, 3, 500, 500, 3, true, true);
    assert!(lines.lines.is_empty());
}

#[test]
fn single_move_is_played_at_once() {
    let mut host = Table::new(vec![
        (LOW, LOW, white(PieceType::King)),
        (LOW + 1, LOW + 2, black(PieceType::Rook)),
        (9, 9, black(PieceType::King)),
    ]);
    let mut state = SearchState::new();
    let (m, _score, stats) =
        get_best_move(&mut state, &mut host, 8, 500, true, true).unwrap();
    assert_eq!((m.to.x, m.to.y), (LOW, LOW + 1));
    assert_eq!(stats.nodes, 0);
    let result = get_best_moves_multipv(&mut state, &mut host, 8, 500, 500, 3, true, true);
    assert_eq!(result.lines.len(), 1);
    assert_eq!(result.lines[0].depth, 0);
}

#[test]
fn lines_are_distinct_and_in_order() {
    let mut host = Table::new(vec![
        (0, 0, white(PieceType::King)),
        (2, 3, white(PieceType::Rook)),
        (5, 3, white(PieceType::Bishop)),
        (9, 9, black(PieceType::King)),
        (2, 7, black(PieceType::Queen)),
    ]);
    let mut state = SearchState::new();
    let result =
        get_best_moves_multipv(&mut state, &mut host, 3, 3000, 3000, 4, true, true);
    assert_eq!(result.lines.len(), 4);
    assert_eq!((result.lines[0].mv.to.x, result.lines[0].mv.to.y), (2, 7));
    for i in 0..4 {
        assert_eq!(result.lines[i].pv[0], result.lines[i].mv);
        for j in i + 1..4 {
            assert!(result.lines[i].score >= result.lines[j].score);
            assert!(result.lines[i].mv != result.lines[j].mv);
        }
    }
    let one = get_best_moves_multipv(&mut state, &mut host, 3, 3000, 3000, 0, true, true);
    assert_eq!(one.lines.len(), 1);
    assert_eq!((one.lines[0].mv.to.x, one.lines[0].mv.to.y), (2, 7));
}

#[test]
fn state_lasts_until_it_is_reset() {
    let mut host = Table::new(vec![
        (0, 0, white(PieceType::King)),
        (2, 3, white(PieceType::Rook)),
        (9, 9, black(PieceType::King)),
    ]);
    let mut state = SearchState::new();
    assert_eq!(get_current_tt_stats(&mut state, &host).nodes, 0);
    assert!(state.searcher.is_some());
    let found = get_best_move_parallel(&mut state, &mut host, 2, 1000, 1000, false, true);
    let nodes = found.unwrap().2.nodes;
    assert!(nodes > 0);
    assert!(host.reports > 0);
    let stats = get_current_tt_stats(&mut state, &host);
    assert_eq!(stats.nodes, nodes);
    assert!(stats.tt_used > 0);
    reset_search_state(&mut state, &mut host);
    assert!(state.searcher.is_none());
    assert_eq!(get_current_tt_stats(&mut state, &host).tt_used, 0);
}

#[test]
fn limited_strength_plays_a_listed_line() {
    let mut host = Table::new(vec![
        (0, 0, white(PieceType::King)),
        (2, 3, white(PieceType::Rook)),
        (9, 9, black(PieceType::King)),
    ]);
    let mut state = SearchState::new();
    set_global_params(&mut state, 12345, Some(3));
    assert_eq!(state.searcher.as_ref().unwrap().noise_amp, 3);
    set_global_params(&mut state, 12345, Some(i32::MAX));
    assert_eq!(state.searcher.as_ref().unwrap().noise_amp, i32::MAX);
    set_global_params(&mut state, 12345, Some(3));
    for level in [Some(1), Some(2), Some(3), None] {
        let found = get_best_move_limited(
            &mut state, &mut host, 3, 1000, 1000, level, true, true,
        );
        assert!(found.is_some());
    }
    // The weakest level looks two plies ahead.
    get_best_move_limited(&mut state, &mut host, 9, 1000, 1000, Some(1), true, true);
}

#[test]
fn helper_threads_look_one_ply_further() {
    assert_eq!(start_depth(0, 9), 1);
    assert_eq!(start_depth(1, 9), 2);
    assert_eq!(start_depth(1, 1), 1);
    assert_eq!(start_depth(2, 9), 1);
    assert_eq!(iteration_depth(3, 4, 9), 5);
    assert_eq!(iteration_depth(3, 9, 9), 9);
    assert_eq!(iteration_depth(2, 4, 9), 4);
    let mut host = Table::new(vec![
        (0, 0, white(PieceType::King)),
        (2, 3, white(PieceType::Rook)),
        (9, 9, black(PieceType::King)),
    ]);
    let mut state = SearchState::new();
    let found =
        get_best_move_threaded(&mut state, &mut host, 2, 1000, 1000, true, 1, true);
    assert!(found.is_some());
    let searcher = state.searcher.as_ref().unwrap();
    assert_eq!(searcher.thread_id, 1);
    assert_eq!(searcher.completed_depth, 2);
    // A helper draws from a generator of its own, and the rest is that of a new
    // searcher.
    assert_eq!(searcher.rng.state, Prng::new(1).state);
    assert_eq!(searcher.noise_amp, 0);
    assert_eq!(searcher.seed, 0);
    assert_eq!(searcher.move_rule_limit, 100);
}

#[test]
fn nothing_is_left_after_a_reset() {
    let mut host = Table::new(vec![
        (0, 0, white(PieceType::King)),
        (2, 3, white(PieceType::Rook)),
        (9, 9, black(PieceType::King)),
    ]);
    let mut state = SearchState::new();
    assert!(get_best_move(&mut state, &mut host, 3, 100_000, true, false).is_some());
    let stats = get_current_tt_stats(&mut state, &host);
    assert!(stats.nodes > 0 && stats.tt_used > 0);
    reset_search_state(&mut state, &mut host);
    for _ in 0..2 {
        let stats = get_current_tt_stats(&mut state, &host);
        assert_eq!(stats.nodes, 0);
        assert_eq!(stats.tt_used, 0);
        assert_eq!(stats.tt_fill_permille, 0);
    }
}

#[test]
fn iterations_start_while_time_is_left() {
    let mut searcher = Searcher::new(1000);
    let clock = ClockReading { elapsed_ms: 600, iteration_ms: 0, budget_us: Some(1_000_000) };
    searcher.hot.set_time_limits(1000, 1000, true);
    assert_eq!(judge_start(&searcher.hot, &clock, 50), IterationStart::Go);
    searcher.hot.min_depth_required = 0;
    assert_eq!(judge_start(&searcher.hot, &clock, 50), IterationStart::Skip);
    assert_eq!(judge_start(&searcher.hot, &clock, 60), IterationStart::Go);
    let short = ClockReading { elapsed_ms: 91, iteration_ms: 0, budget_us: Some(101_900) };
    assert_eq!(judge_start(&searcher.hot, &short, 90), IterationStart::Go);
    let short = ClockReading { elapsed_ms: 92, ..short };
    assert_eq!(judge_start(&searcher.hot, &short, 90), IterationStart::Skip);
    let late = ClockReading { elapsed_ms: 1000, iteration_ms: 0, budget_us: None };
    assert_eq!(judge_start(&searcher.hot, &late, 90), IterationStart::Stop);
    searcher.hot.time_limit_ms = u128::MAX;
    assert_eq!(judge_start(&searcher.hot, &late, 90), IterationStart::Go);
}

#[test]
fn test_pvline_structure() {
    let dummy_move = Move::new(
        Coordinate::new(4, 4),
        Coordinate::new(5, 5),
        Piece::new(PieceType::Pawn, PlayerColor::White),
    );
    let pv = PVLine {
        mv: dummy_move,
        score: 100,
        depth: 5,
        pv: vec![],
    };
    assert_eq!(pv.score, 100);
    assert_eq!(pv.depth, 5);
    assert!(pv.pv.is_empty());
}

#[test]
fn test_multipv_result_structure() {
    let result = MultiPVResult {
        lines: vec![],
        stats: SearchStats {
            nodes: 0,
            tt_capacity: 1000,
            tt_used: 100,
            tt_fill_permille: 100,
        },
    };
    assert!(result.lines.is_empty());
    assert_eq!(result.stats.tt_capacity, 1000);
}

#[test]
fn scores_stay_within_infinity() {
    let mut searcher = Searcher::new(1000);
    let mut host = Table::new(boxed_in_king());
    let score = quiescence(&mut searcher, &mut host, 3, -INFINITY, INFINITY, NodeType::Cut);
    assert!((-INFINITY..=INFINITY).contains(&score));
}

#[test]
fn pinned_pieces_keep_their_line() {
    let mut host = Table::new(vec![
        (0, 0, white(PieceType::King)),
        (3, 0, white(PieceType::Rook)),
        (7, 0, black(PieceType::Rook)),
        (9, 9, black(PieceType::King)),
    ]);
    let all = host.get_legal_moves();
    let legal = legal_root_moves(&mut host);
    assert!(all.iter().any(|m| m.from.x == 3 && m.to.y != 0));
    assert!(legal.iter().all(|m| m.from.x != 3 || m.to.y == 0));
    assert!(legal.iter().all(|m| all.contains(m)));
    assert!(legal.iter().any(|m| (m.from.x, m.to.x) == (3, 7)));
}

#[test]
fn draws_follow_the_generator() {
    let host = Table::new(Vec::new());
    let mut rng = Prng::new(5);
    let mut other = Prng::new(5);
    let draws = draw_numbers(&mut rng, &host, 3, 1);
    let limit = 118;
    for draw in &draws {
        assert_eq!(*draw, host.scale_draw(other.next_u64(), limit));
        assert!((0..=limit).contains(draw));
    }
    assert_eq!(draws.len(), 3);
    assert_eq!(rng.state, other.state);
}

#[test]
fn results_are_told_to_the_table() {
    let mut host = Table::new(vec![
        (0, 0, white(PieceType::King)),
        (2, 3, white(PieceType::Rook)),
        (9, 9, black(PieceType::King)),
        (2, 7, black(PieceType::Queen)),
    ]);
    let hash = host.game.hash;
    let mut searcher = Searcher::new(u128::MAX);
    let mut moves = legal_root_moves(&mut host);
    let count = moves.len();
    let score = negamax_root(&mut searcher, &mut host, 2, -INFINITY, INFINITY, &mut moves);
    let entry = host.entries[&hash];
    assert_eq!(entry.score, score);
    assert_eq!(entry.flag, TTFlag::Exact);
    assert_eq!(entry.depth, 2);
    assert_eq!(entry.best_move, searcher.pv_table[0]);
    assert_eq!(moves.len(), count);
    // A window below the score fails high, one above fails low.
    negamax_root(&mut searcher, &mut host, 2, score - 300, score - 200, &mut moves);
    assert_eq!(host.entries[&hash].flag, TTFlag::LowerBound);
    negamax_root(&mut searcher, &mut host, 2, score + 200, score + 300, &mut moves);
    assert_eq!(host.entries[&hash].flag, TTFlag::UpperBound);
}

#[test]
fn mates_score_by_their_distance() {
    let mut host = Table::new(boxed_in_king());
    let mut searcher = Searcher::new(u128::MAX);
    let mut moves = legal_root_moves(&mut host);
    let score = negamax_root(&mut searcher, &mut host, 3, -INFINITY, INFINITY, &mut moves);
    assert_eq!(score, mate_in(1));
    let mated = negamax(
        &mut searcher,
        &mut Table::new(vec![
            (LOW, LOW, white(PieceType::King)),
            (LOW, LOW + 2, black(PieceType::King)),
            (LOW + 3, LOW, black(PieceType::Rook)),
        ]),
        &NegamaxContext {
            depth: 1,
            ply: 4,
            alpha: -INFINITY,
            beta: INFINITY,
            allow_null: true,
            node_type: NodeType::PV,
            was_null_move: false,
            excluded_move: None,
        },
    );
    assert_eq!(mated, mated_in(4));
}

#[test]
fn standing_pat_bounds_quiescence_from_below() {
    let pieces = vec![
        (0, 0, white(PieceType::King)),
        (2, 2, white(PieceType::Rook)),
        (9, 9, black(PieceType::King)),
        (2, 6, black(PieceType::Queen)),
        (5, 7, black(PieceType::Pawn)),
    ];
    let stand = Table::new(pieces.clone()).evaluate();
    let searched = quiescence(
        &mut Searcher::new(u128::MAX),
        &mut Table::new(pieces.clone()),
        1,
        -20_000,
        20_000,
        NodeType::PV,
    );
    assert!(searched > stand);
    let (alpha, beta) = (stand - 300, stand - 200);
    let high = quiescence(
        &mut Searcher::new(u128::MAX),
        &mut Table::new(pieces),
        1,
        alpha,
        beta,
        NodeType::PV,
    );
    assert_eq!(high, (stand + beta) / 2);
}

#[test]
fn root_keeps_the_best_of_its_moves() {
    let pieces = vec![
        (0, 0, white(PieceType::King)),
        (2, 2, white(PieceType::Rook)),
        (9, 9, black(PieceType::King)),
        (2, 6, black(PieceType::Queen)),
    ];
    let mut host = Table::new(pieces);
    let mut moves = legal_root_moves(&mut host);
    let count = moves.len();
    let mut searcher = Searcher::new(u128::MAX);
    let score = negamax_root(&mut searcher, &mut host, 1, -INFINITY, INFINITY, &mut moves);
    assert_eq!(moves.len(), count);
    assert!(score > -INFINITY);
    assert!(searcher.pv_length[0] > 0);
    let head = searcher.pv_table[0].unwrap();
    assert_eq!((head.to.x, head.to.y), (2, 6));
}
