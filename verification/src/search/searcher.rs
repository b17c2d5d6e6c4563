//! The tables and stacks that a search keeps, and how it learns from results.
use crate::arith::{abs, abs_i32, clamp, clamp_i32, clamp_i64, min_i32, tdiv};
use crate::board::{occupied, PieceType, PlayerColor};
use crate::game::{GameState, Variant};
use crate::moves::Move;
use crate::search::host::SearchHost;
use crate::search::ordering::{coord_slot, hash_coord_32};
use crate::search::params::DEFAULT_HISTORY_MAX_GRAVITY;
use crate::search::{
    prng_start, CorrHistMode, Prng, CORRHIST_GRAIN, CORRHIST_LIMIT, CORRHIST_SIZE,
    CORRHIST_WEIGHT_SCALE, INFINITY, LASTMOVE_CORRHIST_SIZE, LOW_PLY_HISTORY_ENTRIES,
    LOW_PLY_HISTORY_SIZE, MATE_SCORE, MAX_PLY, PAWN_HISTORY_SIZE,
};
use vstd::prelude::*;

verus! {

/// How much smoothing and noise can move an evaluation on the stack away from
/// the one two plies before.
pub const EVAL_DRIFT: i32 = 15_000_032;

/// Noise lies within this distance of zero. More, added up over the plies of a
/// line in check, could leave the range of an evaluation.
pub const NOISE_LIMIT: i32 = 15_000_000;

/// Capture history entries are kept within this distance of zero.
pub const CAPTURE_HISTORY_LIMIT: i32 = 0x4000_0000;

/// The reliability of table moves stays within this distance of zero.
pub const TT_MOVE_HISTORY_LIMIT: i32 = 8192;

pub const CONT_HISTORY_ENTRIES: usize = 12_582_912;

pub const CONT_CORRHIST_ENTRIES: usize = 1_048_576;

pub const PAWN_HISTORY_ENTRIES: usize = 67_108_864;

/// Counters and limits that every node looks at.
pub struct SearcherHot {
    pub nodes: u64,
    pub qnodes: u64,
    pub time_limit_ms: u128,
    pub stopped: bool,
    pub seldepth: usize,
    /// The depth to complete before time stops are allowed.
    pub min_depth_required: usize,
    /// The time that a search should use.
    pub optimum_time_ms: u128,
    /// The time that a search must not exceed.
    pub maximum_time_ms: u128,
    /// How often the best move changed in this iteration.
    pub best_move_changes: u64,
    /// The nodes spent on the first root move in this iteration.
    pub best_move_nodes: u64,
    pub best_previous_average_score: i32,
    /// The scores of the last four iterations, as a ring.
    pub iter_values: [i32; 4],
    pub iter_idx: usize,
    pub last_best_move_depth: usize,
    /// The optimum may be exceeded up to the maximum.
    pub is_soft_limit: bool,
}

impl SearcherHot {
    /// Whether the clock has to be read before time is checked.
    pub open spec fn is_due(self) -> bool {
        self.time_limit_ms != u128::MAX && self.min_depth_required == 0 && self.nodes % 8192 == 0
    }

    /// Whether the clock says that the search has to stop: the time is over,
    /// or would be at the rate of nodes so far before the clock is read again;
    /// or, where the limit is hard, the iteration took half of its budget.
    pub open spec fn expires(self, clock: ClockReading) -> bool {
        let hard = if self.maximum_time_ms > 0 {
            self.maximum_time_ms
        } else {
            self.time_limit_ms
        };
        ||| clock.elapsed_ms >= hard
        ||| self.nodes > 8192 && clock.elapsed_ms * self.nodes + 8192 * clock.elapsed_ms > hard
            * self.nodes
        ||| !self.is_soft_limit && (clock.budget_us matches Some(b) && 2000 * clock.iteration_ms
            > b)
    }

    /// Whether the search has to stop; never without a time limit, nor before
    /// the first depth is complete.
    pub open spec fn must_stop(self, clock: ClockReading) -> bool {
        self.time_limit_ms != u128::MAX && self.min_depth_required == 0 && (self.stopped || (
        self.is_due() && self.expires(clock)))
    }

    /// The figures after time was checked: a stop is noted where the clock is due
    /// and says so.
    pub open spec fn polled(self, clock: ClockReading) -> SearcherHot {
        SearcherHot { stopped: self.stopped || (self.is_due() && self.expires(clock)), ..self }
    }

    /// Sets the time to aim for and the time not to exceed.
    pub fn set_time_limits(&mut self, opt_ms: u128, max_ms: u128, is_soft: bool)
        ensures
            *final(self) == (SearcherHot {
                optimum_time_ms: opt_ms,
                maximum_time_ms: max_ms,
                is_soft_limit: is_soft,
                time_limit_ms: max_ms,
                ..*old(self)
            }),
    {
        self.optimum_time_ms = opt_ms;
        self.maximum_time_ms = max_ms;
        self.is_soft_limit = is_soft;
        self.time_limit_ms = max_ms;
    }
}

/// What the clock shows.
#[derive(Clone, Copy, PartialEq, Eq, Structural, Debug)]
pub struct ClockReading {
    /// Since the search started.
    pub elapsed_ms: u64,
    /// Since the iteration started.
    pub iteration_ms: u64,
    /// The whole microseconds that this move is worth by now, where that was
    /// worked out.
    pub budget_us: Option<u64>,
}

/// What a search keeps from node to node.
pub struct Searcher {
    pub hot: SearcherHot,
    /// The principal variations, one row of `MAX_PLY` moves for each ply.
    pub pv_table: Vec<Option<Move>>,
    pub pv_length: Vec<usize>,
    /// Two killer moves for each ply.
    pub killers: Vec<[Option<Move>; 2]>,
    /// By kind of piece and destination.
    pub history: Vec<Vec<i32>>,
    /// By moving and captured kind of piece.
    pub capture_history: Vec<Vec<i32>>,
    /// By squares of the previous move: kind of piece and destination.
    pub countermoves: Vec<Vec<(u8, i16, i16)>>,
    /// By ply: origin and destination of the move made there.
    pub prev_move_stack: Vec<(usize, usize)>,
    pub eval_stack: Vec<i32>,
    pub best_move_root: Option<Move>,
    pub prev_score: i32,
    pub noise_amp: i32,
    pub seed: u64,
    pub rng: Prng,
    pub completed_depth: usize,
    pub silent: bool,
    pub thread_id: usize,
    pub move_history: Vec<Option<Move>>,
    pub moved_piece_history: Vec<u8>,
    /// By distance of the earlier move (one, two or four plies), whether it
    /// captured and was made in check, its kind of piece and destination, and
    /// the origin and destination of the later move.
    pub cont_history: Vec<i32>,
    /// By kind of piece and destination of an earlier and a later move.
    pub cont_corrhist: Vec<i32>,
    /// Root moves to leave out, as squares.
    pub excluded_moves: Vec<(i64, i64, i64, i64)>,
    pub corrhist_mode: CorrHistMode,
    pub pawn_corrhist: Vec<Vec<i32>>,
    pub nonpawn_corrhist: Vec<Vec<i32>>,
    pub minor_corrhist: Vec<Vec<i32>>,
    pub material_corrhist: Vec<Vec<i32>>,
    pub lastmove_corrhist: Vec<i32>,
    pub in_check_history: Vec<bool>,
    pub capture_history_stack: Vec<bool>,
    pub tt_pv_stack: Vec<bool>,
    pub stat_score_stack: Vec<i32>,
    /// How reliable moves from the transposition table are.
    pub tt_move_history: i32,
    pub reduction_stack: Vec<i32>,
    pub cutoff_cnt: Vec<u8>,
    pub move_rule_limit: i32,
    /// By ply near the root and hash of the move.
    pub low_ply_history: Vec<Vec<i32>>,
    /// By pawn structure, kind of piece and destination.
    pub pawn_history: Vec<i32>,
    pub plies_from_null: Vec<u8>,
}

/// A table of `rows` by `cols` entries within `limit` of zero.
pub open spec fn table_ok(t: Seq<Vec<i32>>, rows: nat, cols: nat, limit: int) -> bool {
    &&& t.len() == rows
    &&& forall|i: int| 0 <= i < rows ==> (#[trigger] t[i])@.len() == cols
    &&& forall|i: int, j: int|
        0 <= i < rows && 0 <= j < cols ==> -limit <= #[trigger] t[i]@[j] <= limit
}

/// A row of `len` entries within `limit` of zero.
pub open spec fn row_ok(t: Seq<i32>, len: nat, limit: int) -> bool {
    &&& t.len() == len
    &&& forall|i: int| 0 <= i < len ==> -limit <= #[trigger] t[i] <= limit
}

/// How far from zero the evaluation of a ply can lie.
pub open spec fn eval_bound(ply: int) -> int {
    MATE_SCORE + (ply + 1) * EVAL_DRIFT
}

/// One evaluation for each ply, within its bound.
pub open spec fn evals_ok(t: Seq<i32>) -> bool {
    &&& t.len() == MAX_PLY
    &&& forall|i: int| 0 <= i < MAX_PLY ==> -eval_bound(i) <= #[trigger] t[i] <= eval_bound(i)
}

/// The only entry in which two tables differ is `(i, j)`.
pub open spec fn same_but(a: Seq<Vec<i32>>, b: Seq<Vec<i32>>, i: int, j: int) -> bool {
    &&& a.len() == b.len()
    &&& forall|p: int| 0 <= p < a.len() ==> (#[trigger] a[p])@.len() == b[p]@.len()
    &&& forall|p: int, q: int|
        0 <= p < a.len() && 0 <= q < a[p]@.len() && (p != i || q != j) ==> #[trigger] a[p]@[q]
            == b[p]@[q]
}

/// A history entry after a bonus: the bonus, brought within the limit, less
/// what draws a large entry back toward zero.
pub open spec fn gravity(entry: int, bonus: int) -> int {
    let b = clamp(bonus, -DEFAULT_HISTORY_MAX_GRAVITY, DEFAULT_HISTORY_MAX_GRAVITY as int);
    entry + b - (entry * abs(b)) / 16384
}

/// Where an entry is within the limit, it stays within it.
pub proof fn history_stays_within_limits(entry: int, bonus: int)
    requires
        -DEFAULT_HISTORY_MAX_GRAVITY <= entry <= DEFAULT_HISTORY_MAX_GRAVITY,
    ensures
        -DEFAULT_HISTORY_MAX_GRAVITY <= gravity(entry, bonus) <= DEFAULT_HISTORY_MAX_GRAVITY,
{
    let b = clamp(bonus, -DEFAULT_HISTORY_MAX_GRAVITY, DEFAULT_HISTORY_MAX_GRAVITY as int);
    lemma_gravity_bounds(entry, b, 16384);
}

/// The update by gravity keeps within `limit` what is within it.
pub proof fn lemma_gravity_bounds(e: int, b: int, limit: int)
    requires
        0 < limit,
        -limit <= e <= limit,
        -limit <= b <= limit,
    ensures
        -limit <= e + b - (e * abs(b)) / limit <= limit,
{
    let a = abs(b);
    let p = e * a;
    let q = p / limit;
    assert(limit * q <= p < limit * q + limit) by (nonlinear_arith)
        requires
            q == p / limit,
            0 < limit,
    ;
    assert(limit * (e + b) - p <= limit * limit) by (nonlinear_arith)
        requires
            p == e * a,
            a == b || a == -b,
            0 <= a <= limit,
            -limit <= e <= limit,
            b <= a,
    ;
    assert(-(limit * limit) <= limit * (e + b) - p) by (nonlinear_arith)
        requires
            p == e * a,
            a == b || a == -b,
            0 <= a <= limit,
            -limit <= e <= limit,
            -a <= b,
    ;
    assert(limit * (e + b - q) < limit * limit + limit) by (nonlinear_arith)
        requires
            p < limit * q + limit,
            limit * (e + b) - p <= limit * limit,
    ;
    assert(-(limit * limit) <= limit * (e + b - q)) by (nonlinear_arith)
        requires
            limit * q <= p,
            -(limit * limit) <= limit * (e + b) - p,
    ;
    assert(e + b - q <= limit) by (nonlinear_arith)
        requires
            limit * (e + b - q) < limit * limit + limit,
            0 < limit,
    ;
    assert(-limit <= e + b - q) by (nonlinear_arith)
        requires
            -(limit * limit) <= limit * (e + b - q),
            0 < limit,
    ;
}

/// The update by gravity that histories share.
pub fn gravity_update(entry: i32, bonus: i32) -> (r: i32)
    requires
        -DEFAULT_HISTORY_MAX_GRAVITY <= entry <= DEFAULT_HISTORY_MAX_GRAVITY,
    ensures
        r == gravity(entry as int, bonus as int),
        -DEFAULT_HISTORY_MAX_GRAVITY <= r <= DEFAULT_HISTORY_MAX_GRAVITY,
{
    let b: i32 = clamp_i32(bonus, -DEFAULT_HISTORY_MAX_GRAVITY, DEFAULT_HISTORY_MAX_GRAVITY);
    let a: i32 = abs_i32(b);
    assert(-268_435_456 <= entry * a <= 268_435_456) by (nonlinear_arith)
        requires
            -16384 <= entry <= 16384,
            0 <= a <= 16384,
    ;
    let p: i32 = entry * a;
    assert((p >> 14) == p / 16384) by (bit_vector);
    proof {
        history_stays_within_limits(entry as int, bonus as int);
    }
    entry + b - (p >> 14)
}

impl Searcher {
    /// Every table and stack has its size, and every entry its bounds.
    pub open spec fn wf(&self) -> bool {
        &&& self.pv_table@.len() == MAX_PLY * MAX_PLY
        &&& self.pv_length@.len() == MAX_PLY
        &&& forall|i: int| 0 <= i < MAX_PLY ==> #[trigger] self.pv_length@[i] <= MAX_PLY - i
        &&& self.killers@.len() == MAX_PLY
        &&& table_ok(self.history@, 32, 256, 16384)
        &&& table_ok(self.capture_history@, 32, 32, CAPTURE_HISTORY_LIMIT as int)
        &&& self.countermoves@.len() == 256
        &&& forall|i: int| 0 <= i < 256 ==> (#[trigger] self.countermoves@[i])@.len() == 256
        &&& self.prev_move_stack@.len() == MAX_PLY
        &&& evals_ok(self.eval_stack@)
        &&& -INFINITY <= self.prev_score <= INFINITY
        &&& self.move_history@.len() == MAX_PLY
        &&& self.moved_piece_history@.len() == MAX_PLY
        &&& row_ok(self.cont_history@, CONT_HISTORY_ENTRIES as nat, 16384)
        &&& row_ok(self.cont_corrhist@, CONT_CORRHIST_ENTRIES as nat, CORRHIST_LIMIT as int)
        &&& table_ok(self.pawn_corrhist@, 2, CORRHIST_SIZE as nat, CORRHIST_LIMIT as int)
        &&& table_ok(self.nonpawn_corrhist@, 2, CORRHIST_SIZE as nat, CORRHIST_LIMIT as int)
        &&& table_ok(self.minor_corrhist@, 2, CORRHIST_SIZE as nat, CORRHIST_LIMIT as int)
        &&& table_ok(self.material_corrhist@, 2, CORRHIST_SIZE as nat, CORRHIST_LIMIT as int)
        &&& row_ok(self.lastmove_corrhist@, LASTMOVE_CORRHIST_SIZE as nat, CORRHIST_LIMIT as int)
        &&& self.in_check_history@.len() == MAX_PLY
        &&& self.capture_history_stack@.len() == MAX_PLY
        &&& self.tt_pv_stack@.len() == MAX_PLY
        &&& row_ok(self.stat_score_stack@, MAX_PLY as nat, 16384)
        &&& -TT_MOVE_HISTORY_LIMIT <= self.tt_move_history <= TT_MOVE_HISTORY_LIMIT
        &&& row_ok(self.reduction_stack@, MAX_PLY as nat, MAX_PLY as int)
        &&& self.cutoff_cnt@.len() == MAX_PLY + 2
        &&& table_ok(
            self.low_ply_history@,
            LOW_PLY_HISTORY_SIZE as nat,
            LOW_PLY_HISTORY_ENTRIES as nat,
            16384,
        )
        &&& row_ok(self.pawn_history@, PAWN_HISTORY_ENTRIES as nat, 16384)
        &&& self.plies_from_null@.len() == MAX_PLY
        &&& self.hot.iter_idx < 4
        &&& -INFINITY <= self.hot.best_previous_average_score <= INFINITY
    }
}

/// A table of zeros.
fn zero_table(rows: usize, cols: usize) -> (r: Vec<Vec<i32>>)
    ensures
        r@.len() == rows,
        forall|i: int| 0 <= i < rows ==> (#[trigger] r@[i])@ == Seq::new(cols as nat, |j: int| 0i32),
{
    filled_table(rows, cols, 0)
}

/// A table of one value.
fn filled_table(rows: usize, cols: usize, value: i32) -> (r: Vec<Vec<i32>>)
    ensures
        r@.len() == rows,
        forall|i: int|
            0 <= i < rows ==> (#[trigger] r@[i])@ == Seq::new(cols as nat, |j: int| value),
{
    let mut r: Vec<Vec<i32>> = Vec::new();
    let mut i: usize = 0;
    while i < rows
        invariant
            i <= rows,
            r@.len() == i,
            forall|k: int|
                0 <= k < i ==> (#[trigger] r@[k])@ == Seq::new(cols as nat, |j: int| value),
        decreases rows - i,
    {
        let row: Vec<i32> = vec![value;cols];
        assert(row@ =~= Seq::new(cols as nat, |j: int| value));
        r.push(row);
        i += 1;
    }
    r
}

/// `value` `n` times.
fn repeated<T: Copy>(value: T, n: usize) -> (r: Vec<T>)
    ensures
        r@ == Seq::new(n as nat, |i: int| value),
{
    let mut r: Vec<T> = Vec::new();
    let mut i: usize = 0;
    while i < n
        invariant
            i <= n,
            r@ == Seq::new(i as nat, |i: int| value),
        decreases n - i,
    {
        r.push(value);
        i += 1;
        assert(r@ =~= Seq::new(i as nat, |i: int| value));
    }
    r
}

fn empty_countermoves() -> (r: Vec<Vec<(u8, i16, i16)>>)
    ensures
        r@.len() == 256,
        forall|i: int|
            0 <= i < 256 ==> (#[trigger] r@[i])@ == Seq::new(
                256,
                |j: int| (0u8, 0i16, 0i16),
            ),
{
    let mut r: Vec<Vec<(u8, i16, i16)>> = Vec::new();
    let mut i: usize = 0;
    while i < 256
        invariant
            i <= 256,
            r@.len() == i,
            forall|k: int|
                0 <= k < i ==> (#[trigger] r@[k])@ == Seq::new(
                    256,
                    |j: int| (0u8, 0i16, 0i16),
                ),
        decreases 256 - i,
    {
        let row: Vec<(u8, i16, i16)> = repeated((0u8, 0i16, 0i16), 256);
        assert(row@ =~= Seq::new(256, |j: int| (0u8, 0i16, 0i16)));
        r.push(row);
        i += 1;
    }
    r
}

impl Searcher {
    /// A searcher that has searched nothing: its tables and stacks are empty, and
    /// nothing was asked of it but a time limit.
    pub open spec fn is_new(&self, time_limit_ms: u128) -> bool {
        &&& self.hot.time_limit_ms == time_limit_ms
        &&& self.hot.nodes == 0
        &&& self.hot.qnodes == 0
        &&& !self.hot.stopped
        &&& self.hot.seldepth == 0
        &&& self.hot.min_depth_required == 1
        &&& self.hot.optimum_time_ms == 0
        &&& self.hot.maximum_time_ms == 0
        &&& self.hot.best_move_changes == 0
        &&& self.hot.best_move_nodes == 0
        &&& self.hot.best_previous_average_score == 0
        &&& self.hot.iter_values@ == seq![0i32, 0, 0, 0]
        &&& self.hot.iter_idx == 0
        &&& self.hot.last_best_move_depth == 0
        &&& !self.hot.is_soft_limit
        &&& forall|i: int| 0 <= i < MAX_PLY ==> #[trigger] self.pv_length@[i] == 0
        &&& forall|i: int| 0 <= i < MAX_PLY * MAX_PLY ==> #[trigger] self.pv_table@[i] is None
        &&& self.tables_are_neutral()
        &&& forall|i: int| 0 <= i < MAX_PLY ==> #[trigger] self.prev_move_stack@[i] == (0usize, 0usize)
        &&& forall|i: int| 0 <= i < MAX_PLY ==> #[trigger] self.eval_stack@[i] == 0
        &&& forall|i: int| 0 <= i < MAX_PLY ==> #[trigger] self.move_history@[i] is None
        &&& forall|i: int| 0 <= i < MAX_PLY ==> #[trigger] self.moved_piece_history@[i] == 0
        &&& forall|i: int| 0 <= i < MAX_PLY ==> #[trigger] self.plies_from_null@[i] == 255
        &&& self.best_move_root is None
        &&& self.prev_score == 0
        &&& self.noise_amp == 0
        &&& self.seed == 0
        &&& self.rng.state == prng_start(0)
        &&& self.completed_depth == 0
        &&& !self.silent
        &&& self.thread_id == 0
        &&& self.excluded_moves@.len() == 0
        &&& self.corrhist_mode is NonPawnBased
        &&& self.move_rule_limit == 100
        &&& forall|i: int| 0 <= i < MAX_PLY ==> !#[trigger] self.in_check_history@[i]
        &&& forall|i: int| 0 <= i < MAX_PLY ==> !#[trigger] self.capture_history_stack@[i]
        &&& forall|i: int| 0 <= i < MAX_PLY ==> !#[trigger] self.tt_pv_stack@[i]
        &&& forall|i: int| 0 <= i < MAX_PLY ==> #[trigger] self.stat_score_stack@[i] == 0
        &&& forall|i: int| 0 <= i < MAX_PLY ==> #[trigger] self.reduction_stack@[i] == 0
        &&& forall|i: int| 0 <= i < MAX_PLY ==> #[trigger] self.cutoff_cnt@[i] == 0
    }

    /// A searcher with empty tables.
    pub fn new(time_limit_ms: u128) -> (r: Searcher)
        ensures
            r.wf(),
            r.is_new(time_limit_ms),
    {
        Searcher {
            hot: SearcherHot {
                nodes: 0,
                qnodes: 0,
                time_limit_ms,
                stopped: false,
                seldepth: 0,
                min_depth_required: 1,
                optimum_time_ms: 0,
                maximum_time_ms: 0,
                best_move_changes: 0,
                best_move_nodes: 0,
                best_previous_average_score: 0,
                iter_values: [0, 0, 0, 0],
                iter_idx: 0,
                last_best_move_depth: 0,
                is_soft_limit: false,
            },
            pv_table: vec![None;4096],
            pv_length: vec![0;64],
            killers: vec![[None, None];64],
            history: zero_table(32, 256),
            capture_history: zero_table(32, 32),
            countermoves: empty_countermoves(),
            prev_move_stack: repeated((0, 0), 64),
            eval_stack: vec![0;64],
            best_move_root: None,
            prev_score: 0,
            noise_amp: 0,
            seed: 0,
            rng: Prng::new(0),
            completed_depth: 0,
            silent: false,
            thread_id: 0,
            move_history: vec![None;64],
            moved_piece_history: vec![0;64],
            cont_history: vec![0;CONT_HISTORY_ENTRIES],
            cont_corrhist: vec![0;CONT_CORRHIST_ENTRIES],
            excluded_moves: Vec::new(),
            corrhist_mode: CorrHistMode::NonPawnBased,
            pawn_corrhist: zero_table(2, CORRHIST_SIZE),
            nonpawn_corrhist: zero_table(2, CORRHIST_SIZE),
            minor_corrhist: zero_table(2, CORRHIST_SIZE),
            material_corrhist: zero_table(2, CORRHIST_SIZE),
            lastmove_corrhist: vec![0;LASTMOVE_CORRHIST_SIZE],
            in_check_history: vec![false;64],
            capture_history_stack: vec![false;64],
            tt_pv_stack: vec![false;64],
            stat_score_stack: vec![0;64],
            tt_move_history: 0,
            reduction_stack: vec![0;64],
            cutoff_cnt: vec![0;66],
            move_rule_limit: 100,
            low_ply_history: zero_table(LOW_PLY_HISTORY_SIZE, LOW_PLY_HISTORY_ENTRIES),
            pawn_history: vec![0;PAWN_HISTORY_ENTRIES],
            plies_from_null: vec![255;64],
        }
    }

    /// Every history and correction table is empty, and so are the killers and
    /// countermoves.
    pub open spec fn tables_are_neutral(&self) -> bool {
        &&& table_ok(self.history@, 32, 256, 0)
        &&& table_ok(self.capture_history@, 32, 32, 0)
        &&& row_ok(self.cont_history@, CONT_HISTORY_ENTRIES as nat, 0)
        &&& row_ok(self.cont_corrhist@, CONT_CORRHIST_ENTRIES as nat, 0)
        &&& table_ok(self.pawn_corrhist@, 2, CORRHIST_SIZE as nat, 0)
        &&& table_ok(self.nonpawn_corrhist@, 2, CORRHIST_SIZE as nat, 0)
        &&& table_ok(self.minor_corrhist@, 2, CORRHIST_SIZE as nat, 0)
        &&& table_ok(self.material_corrhist@, 2, CORRHIST_SIZE as nat, 0)
        &&& row_ok(self.lastmove_corrhist@, LASTMOVE_CORRHIST_SIZE as nat, 0)
        &&& table_ok(
            self.low_ply_history@,
            LOW_PLY_HISTORY_SIZE as nat,
            LOW_PLY_HISTORY_ENTRIES as nat,
            0,
        )
        &&& row_ok(self.pawn_history@, PAWN_HISTORY_ENTRIES as nat, 0)
        &&& no_killers(self.killers@)
        &&& forall|i: int, j: int|
            0 <= i < 256 && 0 <= j < 256 ==> #[trigger] self.countermoves@[i]@[j] == (
                0u8,
                0i16,
                0i16,
            )
        &&& self.tt_move_history == 0
    }
}

/// No ply has a killer move.
pub open spec fn no_killers(k: Seq<[Option<Move>; 2]>) -> bool {
    forall|i: int|
        0 <= i < k.len() ==> (#[trigger] k[i])@[0] is None && k[i]@[1] is None
}

impl Searcher {
    /// Makes ready for the next depth.
    pub fn reset_for_iteration(&mut self)
        requires
            old(self).wf(),
        ensures
            final(self).wf(),
            *final(self) == (Searcher {
                hot: SearcherHot { stopped: false, seldepth: 0, ..old(self).hot },
                pv_length: final(self).pv_length,
                ..*old(self)
            }),
            forall|i: int| 0 <= i < MAX_PLY ==> #[trigger] final(self).pv_length@[i] == 0,
    {
        self.hot.stopped = false;
        self.hot.seldepth = 0;
        self.pv_length = vec![0;64];
    }

    /// Whether a move goes back and forth, as the moves two and four plies
    /// before did. Pawn moves, captures, early moves and moves soon after a
    /// null move or near the root do not count.
    pub open spec fn shuffles(&self, game: GameState, m: Move, ply: int) -> bool {
        &&& !(m.piece.piece_type is Pawn)
        &&& !occupied(game.board@, m.to.x as int, m.to.y as int)
        &&& game.halfmove_clock >= 10
        &&& self.plies_from_null@[ply] > 6
        &&& ply >= 20
        &&& self.move_history@[ply - 2] matches Some(m2)
        &&& self.move_history@[ply - 4] matches Some(m4)
        &&& m.from == m2.to
        &&& m2.from == m4.to
    }

    pub fn is_shuffling(&self, game: &GameState, m: &Move, ply: usize) -> (r: bool)
        requires
            self.wf(),
            ply < MAX_PLY,
        ensures
            r == self.shuffles(*game, *m, ply as int),
    {
        if m.piece.piece_type == PieceType::Pawn || game.board.is_occupied(m.to.x, m.to.y)
            || game.halfmove_clock < 10 {
            return false;
        }
        if self.plies_from_null[ply] <= 6 || ply < 20 {
            return false;
        }
        match (&self.move_history[ply - 2], &self.move_history[ply - 4]) {
            (Some(m2), Some(m4)) => m.from == m2.to && m2.from == m4.to,
            _ => false,
        }
    }

    /// The correction tables that suit a variant.
    pub open spec fn mode_for(variant: Option<Variant>) -> CorrHistMode {
        match variant {
            Some(Variant::CoaIP)
            | Some(Variant::CoaIPHO)
            | Some(Variant::CoaIPRO)
            | Some(Variant::CoaIPNO)
            | Some(Variant::Classical)
            | Some(Variant::Chess) => CorrHistMode::PawnBased,
            _ => CorrHistMode::NonPawnBased,
        }
    }

    pub fn set_corrhist_mode(&mut self, game: &GameState)
        requires
            old(self).wf(),
        ensures
            final(self).wf(),
            *final(self) == (Searcher {
                corrhist_mode: Self::mode_for(game.variant),
                ..*old(self)
            }),
    {
        self.corrhist_mode =
        match game.variant {
            Some(Variant::CoaIP)
            | Some(Variant::CoaIPHO)
            | Some(Variant::CoaIPRO)
            | Some(Variant::CoaIPNO)
            | Some(Variant::Classical)
            | Some(Variant::Chess) => CorrHistMode::PawnBased,
            _ => CorrHistMode::NonPawnBased,
        };
    }

    /// Takes a tenth off every history entry.
    pub fn decay_history(&mut self)
        requires
            old(self).wf(),
        ensures
            final(self).wf(),
            *final(self) == (Searcher { history: final(self).history, ..*old(self) }),
            forall|i: int, j: int|
                0 <= i < 32 && 0 <= j < 256 ==> #[trigger] final(self).history@[i]@[j] == tdiv(
                    old(self).history@[i]@[j] * 9,
                    10,
                ),
            // Nothing grows, and nothing changes its sign.
            forall|i: int, j: int|
                0 <= i < 32 && 0 <= j < 256 ==> if old(self).history@[i]@[j] >= 0 {
                    0 <= #[trigger] final(self).history@[i]@[j] <= old(self).history@[i]@[j] && (
                    old(self).history@[i]@[j] > 0 ==> final(self).history@[i]@[j]
                        < old(self).history@[i]@[j])
                } else {
                    old(self).history@[i]@[j] < final(self).history@[i]@[j] <= 0
                },
    {
        let mut decayed: Vec<Vec<i32>> = Vec::new();
        let mut i: usize = 0;
        while i < 32
            invariant
                i <= 32,
                *self == *old(self),
                old(self).wf(),
                decayed@.len() == i,
                forall|p: int| 0 <= p < i ==> (#[trigger] decayed@[p])@.len() == 256,
                forall|p: int, q: int|
                    0 <= p < i && 0 <= q < 256 ==> #[trigger] decayed@[p]@[q] == tdiv(
                        self.history@[p]@[q] * 9,
                        10,
                    ),
            decreases 32 - i,
        {
            let mut row: Vec<i32> = Vec::new();
            let mut j: usize = 0;
            while j < 256
                invariant
                    i < 32,
                    j <= 256,
                    old(self).wf(),
                    *self == *old(self),
                    row@.len() == j,
                    forall|q: int|
                        0 <= q < j ==> #[trigger] row@[q] == tdiv(
                            self.history@[i as int]@[q] * 9,
                            10,
                        ),
                decreases 256 - j,
            {
                let v: i32 = self.history[i][j];
                row.push(v * 9 / 10);
                j += 1;
            }
            decayed.push(row);
            i += 1;
        }
        self.history = decayed;
    }

    /// A new search was started: counters, iteration state, killers and the history
    /// near the root are set back.
    pub open spec fn search_begun(&self, before: &Searcher) -> bool {
        &&& *self == (Searcher {
            hot: SearcherHot {
                nodes: 0,
                qnodes: 0,
                seldepth: 0,
                stopped: false,
                min_depth_required: 1,
                best_move_changes: 0,
                best_move_nodes: 0,
                best_previous_average_score: 0,
                iter_values: self.hot.iter_values,
                iter_idx: 0,
                last_best_move_depth: 0,
                ..before.hot
            },
            prev_score: 0,
            completed_depth: 0,
            best_move_root: None,
            killers: self.killers,
            tt_move_history: 0,
            stat_score_stack: self.stat_score_stack,
            low_ply_history: self.low_ply_history,
            ..*before
        })
        &&& self.hot.iter_values@ == seq![0i32, 0, 0, 0]
        &&& no_killers(self.killers@)
        &&& forall|i: int| 0 <= i < MAX_PLY ==> #[trigger] self.stat_score_stack@[i] == 0
        &&& forall|i: int, j: int|
            0 <= i < LOW_PLY_HISTORY_SIZE && 0 <= j < LOW_PLY_HISTORY_ENTRIES
                ==> #[trigger] self.low_ply_history@[i]@[j] == 97
    }

    /// Starts a new search: counters, iteration state, killers and the history
    /// near the root are set back. Moves near the root start with a small bias.
    pub fn new_search(&mut self)
        requires
            old(self).wf(),
        ensures
            final(self).wf(),
            final(self).search_begun(old(self)),
    {
        self.hot.nodes = 0;
        self.hot.qnodes = 0;
        self.hot.seldepth = 0;
        self.hot.stopped = false;
        self.hot.min_depth_required = 1;
        self.hot.best_move_changes = 0;
        self.hot.best_move_nodes = 0;
        self.hot.best_previous_average_score = 0;
        self.hot.iter_values = [0, 0, 0, 0];
        self.hot.iter_idx = 0;
        self.hot.last_best_move_depth = 0;
        self.prev_score = 0;
        self.completed_depth = 0;
        self.best_move_root = None;
        self.killers = vec![[None, None];64];
        self.tt_move_history = 0;
        self.stat_score_stack = vec![0;64];
        self.low_ply_history = filled_table(LOW_PLY_HISTORY_SIZE, LOW_PLY_HISTORY_ENTRIES, 97);
    }

    /// Forgets everything that searches have learned, the table included.
    pub fn clear<H: SearchHost>(&mut self, host: &mut H)
        requires
            old(self).wf(),
        ensures
            old(host).clears_tt(final(host)),
            final(self).wf(),
            final(self).tables_are_neutral(),
            *final(self) == (Searcher {
                history: final(self).history,
                capture_history: final(self).capture_history,
                cont_history: final(self).cont_history,
                cont_corrhist: final(self).cont_corrhist,
                pawn_corrhist: final(self).pawn_corrhist,
                nonpawn_corrhist: final(self).nonpawn_corrhist,
                minor_corrhist: final(self).minor_corrhist,
                material_corrhist: final(self).material_corrhist,
                lastmove_corrhist: final(self).lastmove_corrhist,
                low_ply_history: final(self).low_ply_history,
                pawn_history: final(self).pawn_history,
                killers: final(self).killers,
                countermoves: final(self).countermoves,
                tt_move_history: 0,
                ..*old(self)
            }),
    {
        host.clear_tt();
        self.history = zero_table(32, 256);
        self.capture_history = zero_table(32, 32);
        self.cont_history = vec![0;CONT_HISTORY_ENTRIES];
        self.cont_corrhist = vec![0;CONT_CORRHIST_ENTRIES];
        self.pawn_corrhist = zero_table(2, CORRHIST_SIZE);
        self.nonpawn_corrhist = zero_table(2, CORRHIST_SIZE);
        self.minor_corrhist = zero_table(2, CORRHIST_SIZE);
        self.material_corrhist = zero_table(2, CORRHIST_SIZE);
        self.lastmove_corrhist = vec![0;LASTMOVE_CORRHIST_SIZE];
        self.low_ply_history = zero_table(LOW_PLY_HISTORY_SIZE, LOW_PLY_HISTORY_ENTRIES);
        self.pawn_history = vec![0;PAWN_HISTORY_ENTRIES];
        self.killers = vec![[None, None];64];
        self.countermoves = empty_countermoves();
        self.tt_move_history = 0;
    }

    /// Updates the history of a kind of piece and a destination.
    pub fn update_history(&mut self, piece: PieceType, idx: usize, bonus: i32)
        requires
            old(self).wf(),
            idx < 256,
        ensures
            final(self).wf(),
            *final(self) == (Searcher { history: final(self).history, ..*old(self) }),
            final(self).history@[piece.index_spec()]@[idx as int] == gravity(
                old(self).history@[piece.index_spec()]@[idx as int] as int,
                bonus as int,
            ),
            same_but(
                final(self).history@,
                old(self).history@,
                piece.index_spec(),
                idx as int,
            ),
    {
        let p: usize = piece.index();
        let entry: i32 = self.history[p][idx];
        self.history[p][idx] = gravity_update(entry, bonus);
    }

    /// Updates the history of a move under a pawn structure.
    pub fn update_pawn_history(
        &mut self,
        pawn_hash: u64,
        piece: PieceType,
        to_hash: usize,
        bonus: i32,
    )
        requires
            old(self).wf(),
            to_hash < 256,
        ensures
            final(self).wf(),
            *final(self) == (Searcher { pawn_history: final(self).pawn_history, ..*old(self) }),
            final(self).pawn_history@[pawn_slot(pawn_hash, piece.index_spec(), to_hash as int)]
                == gravity(
                old(self).pawn_history@[pawn_slot(
                    pawn_hash,
                    piece.index_spec(),
                    to_hash as int,
                )] as int,
                bonus as int,
            ),
            final(self).pawn_history@ == old(self).pawn_history@.update(
                pawn_slot(pawn_hash, piece.index_spec(), to_hash as int),
                gravity(
                    old(self).pawn_history@[pawn_slot(
                        pawn_hash,
                        piece.index_spec(),
                        to_hash as int,
                    )] as int,
                    bonus as int,
                ) as i32,
            ),
    {
        let i: usize = pawn_history_index(pawn_hash, piece.index(), to_hash);
        let entry: i32 = self.pawn_history[i];
        self.pawn_history[i] = gravity_update(entry, bonus);
    }

    /// Updates the history of a move near the root; farther away nothing
    /// changes.
    pub fn update_low_ply_history(&mut self, ply: usize, move_hash: usize, bonus: i32)
        requires
            old(self).wf(),
        ensures
            final(self).wf(),
            *final(self) == (Searcher {
                low_ply_history: final(self).low_ply_history,
                ..*old(self)
            }),
            ply >= LOW_PLY_HISTORY_SIZE ==> *final(self) == *old(self),
            ply < LOW_PLY_HISTORY_SIZE ==> {
                let j = move_hash as int % LOW_PLY_HISTORY_ENTRIES as int;
                &&& final(self).low_ply_history@[ply as int]@[j] == gravity(
                    old(self).low_ply_history@[ply as int]@[j] as int,
                    bonus as int,
                )
                &&& same_but(
                    final(self).low_ply_history@,
                    old(self).low_ply_history@,
                    ply as int,
                    j,
                )
            },
    {
        if ply < LOW_PLY_HISTORY_SIZE {
            let idx: usize = move_hash % LOW_PLY_HISTORY_ENTRIES;
            let entry: i32 = self.low_ply_history[ply][idx];
            self.low_ply_history[ply][idx] = gravity_update(entry, bonus);
        }
    }

    pub open spec fn clock_due(&self) -> bool {
        self.hot.is_due()
    }

    pub fn is_clock_due(&self) -> (r: bool)
        ensures
            r == self.clock_due(),
    {
        self.hot.time_limit_ms != u128::MAX && self.hot.min_depth_required == 0 && self.hot.nodes
            % 8192 == 0
    }

    pub open spec fn time_expired(&self, clock: ClockReading) -> bool {
        self.hot.expires(clock)
    }

    pub fn is_time_expired(&self, clock: &ClockReading) -> (r: bool)
        ensures
            r == self.time_expired(*clock),
    {
        let hard: u128 = if self.hot.maximum_time_ms > 0 {
            self.hot.maximum_time_ms
        } else {
            self.hot.time_limit_ms
        };
        let elapsed: u128 = clock.elapsed_ms as u128;
        if elapsed >= hard {
            return true;
        }
        if self.hot.nodes > 8192 && elapsed > 0 {
            let left: u128 = hard - elapsed;
            let work: u128 = 8192 * elapsed - 1;
            let nodes: u128 = self.hot.nodes as u128;
            let late = work / nodes >= left;
            proof {
                lemma_quotient_reaches(work as int, nodes as int, left as int);
                assert(elapsed * nodes + left * nodes == hard * nodes) by (nonlinear_arith)
                    requires
                        left == hard - elapsed,
                ;
            }
            if late {
                return true;
            }
        }
        assert(clock.elapsed_ms == 0 ==> clock.elapsed_ms * self.hot.nodes == 0)
            by (nonlinear_arith);
        assert(hard * self.hot.nodes >= 0) by (nonlinear_arith)
            requires
                hard >= 0,
                self.hot.nodes >= 0,
        ;
        match clock.budget_us {
            Some(b) => !self.hot.is_soft_limit && 2000 * clock.iteration_ms as u128 > b as u128,
            None => false,
        }
    }

    /// Whether the search has to stop. Without a time limit and before the
    /// first depth is complete a search does not stop; the clock counts only
    /// where it is due.
    pub fn check_time(&mut self, clock: &ClockReading) -> (r: bool)
        requires
            old(self).wf(),
        ensures
            final(self).wf(),
            *final(self) == (Searcher {
                hot: SearcherHot {
                    stopped: old(self).hot.stopped || (old(self).clock_due() && old(
                        self,
                    ).time_expired(*clock)),
                    ..old(self).hot
                },
                ..*old(self)
            }),
            r == (old(self).hot.time_limit_ms != u128::MAX && old(self).hot.min_depth_required == 0
                && final(self).hot.stopped),
    {
        if self.is_clock_due() && self.is_time_expired(clock) {
            self.hot.stopped = true;
        }
        self.hot.time_limit_ms != u128::MAX && self.hot.min_depth_required == 0
            && self.hot.stopped
    }
}

/// A quotient reaches `k` where the dividend, plus one, exceeds `k` divisors.
proof fn lemma_quotient_reaches(a: int, n: int, k: int)
    requires
        0 <= a,
        0 < n,
        0 <= k,
    ensures
        (a / n >= k) == (a + 1 > k * n),
{
    let q = a / n;
    assert(q * n <= a < q * n + n) by (nonlinear_arith)
        requires
            q == a / n,
            0 < n,
            0 <= a,
    ;
    if q >= k {
        assert(k * n <= q * n) by (nonlinear_arith)
            requires
                k <= q,
                0 < n,
        ;
    } else {
        assert(q * n + n <= k * n) by (nonlinear_arith)
            requires
                q + 1 <= k,
                0 < n,
        ;
    }
}

/// The entry of a move under a pawn structure.
pub open spec fn pawn_slot(pawn_hash: u64, piece: int, to: int) -> int {
    (pawn_hash as int % PAWN_HISTORY_SIZE as int) * 8192 + piece * 256 + to
}

pub fn pawn_history_index(pawn_hash: u64, piece: usize, to: usize) -> (r: usize)
    requires
        piece < 32,
        to < 256,
    ensures
        r == pawn_slot(pawn_hash, piece as int, to as int),
        r < PAWN_HISTORY_ENTRIES,
{
    (pawn_hash % 8192) as usize * 8192 + piece * 256 + to
}

/// The row of a color in the correction tables.
pub open spec fn color_row(turn: PlayerColor) -> int {
    if turn is White {
        0
    } else {
        1
    }
}

fn color_index(turn: PlayerColor) -> (r: usize)
    ensures
        r == color_row(turn),
        r < 2,
{
    if turn == PlayerColor::White {
        0
    } else {
        1
    }
}

/// The hash of the minor pieces, with the square of the king to move mixed in.
pub open spec fn minor_mix(game: GameState) -> u64 {
    let royals = if game.turn is White {
        game.white_royals@
    } else {
        game.black_royals@
    };
    if royals.len() > 0 {
        game.minor_hash ^ (royals[0].x as u64).wrapping_mul(0x517cc1b727220a95) ^ (
        royals[0].y as u64).wrapping_mul(0x9136a9a9f9065e33)
    } else {
        game.minor_hash
    }
}

/// The entry of a hash in a correction table.
pub open spec fn corr_slot(hash: u64) -> int {
    hash as int % CORRHIST_SIZE as int
}

/// The hash of the pieces of the side to move.
pub open spec fn nonpawn_hash(game: GameState) -> u64 {
    if game.turn is White {
        game.white_nonpawn_hash
    } else {
        game.black_nonpawn_hash
    }
}

/// The entry of an earlier and a later move.
pub open spec fn cont_corr_slot(prev_piece: int, prev_to: int, piece: int, to: int) -> int {
    ((prev_piece * 32 + prev_to) * 32 + piece) * 32 + to
}

/// An entry drawn toward `scaled` with a weight out of 256, within the limit.
pub open spec fn blended(entry: int, scaled: int, weight: int) -> int {
    clamp(
        tdiv(
            entry * (CORRHIST_WEIGHT_SCALE - weight) + scaled * weight,
            CORRHIST_WEIGHT_SCALE as int,
        ),
        -CORRHIST_LIMIT,
        CORRHIST_LIMIT as int,
    )
}

/// The weight of a result found at a depth.
pub open spec fn depth_weight(depth: int) -> int {
    clamp(depth * depth + 2 * depth + 1, 1, 128)
}

fn blend(entry: i32, scaled: i32, weight: i32) -> (r: i32)
    requires
        -CORRHIST_LIMIT <= entry <= CORRHIST_LIMIT,
        0 <= weight <= 128,
    ensures
        r == blended(entry as int, scaled as int, weight as int),
        -CORRHIST_LIMIT <= r <= CORRHIST_LIMIT,
{
    let keep: i64 = (CORRHIST_WEIGHT_SCALE - weight) as i64;
    let e: i64 = entry as i64;
    let s: i64 = scaled as i64;
    let w: i64 = weight as i64;
    assert(-0x80_0000 <= e * keep <= 0x80_0000) by (nonlinear_arith)
        requires
            -32768 <= e <= 32768,
            0 <= keep <= 256,
    ;
    assert(-0x40_0000_0000 <= s * w <= 0x40_0000_0000) by (nonlinear_arith)
        requires
            -0x8000_0000 <= s <= 0x7fff_ffff,
            0 <= w <= 128,
    ;
    clamp_i64(
        (e * keep + s * w) / CORRHIST_WEIGHT_SCALE as i64,
        -(CORRHIST_LIMIT as i64),
        CORRHIST_LIMIT as i64,
    ) as i32
}

impl Searcher {
    /// The entry of the move `ago` plies before the last one together with the
    /// last one, where both are known.
    pub open spec fn cont_corr_at(&self, ply: int, ago: int) -> Option<int> {
        if ply > ago {
            match (self.move_history@[ply - 1], self.move_history@[ply - ago - 1]) {
                (Some(cur), Some(prev)) => if self.moved_piece_history@[ply - ago - 1] < 32 {
                    Some(
                        cont_corr_slot(
                            self.moved_piece_history@[ply - ago - 1] as int,
                            coord_slot(prev.to.x, prev.to.y),
                            cur.piece.piece_type.index_spec(),
                            coord_slot(cur.to.x, cur.to.y),
                        ),
                    )
                } else {
                    None
                },
                _ => None,
            }
        } else {
            None
        }
    }

    pub open spec fn cont_corr_value(&self, ply: int, ago: int) -> int {
        match self.cont_corr_at(ply, ago) {
            Some(i) => self.cont_corrhist@[i] as int,
            None => 0,
        }
    }

    /// What the correction tables add to an evaluation: 45 percent pawns, 25
    /// percent material and 30 percent minor pieces; or 35 percent pieces, 20
    /// percent minor pieces and 15 percent each of material, last move and
    /// continuation.
    pub open spec fn correction(&self, game: GameState, ply: int, prev_move_idx: usize) -> int {
        let row = color_row(game.turn);
        let material = self.material_corrhist@[row]@[corr_slot(game.material_hash)] as int;
        let minor = self.minor_corrhist@[row]@[corr_slot(minor_mix(game))] as int;
        match self.corrhist_mode {
            CorrHistMode::PawnBased => tdiv(
                self.pawn_corrhist@[row]@[corr_slot(game.pawn_hash)] * 45 + material * 25 + minor
                    * 30,
                CORRHIST_GRAIN * 100,
            ),
            CorrHistMode::NonPawnBased => tdiv(
                self.nonpawn_corrhist@[row]@[corr_slot(nonpawn_hash(game))] * 35 + minor * 20
                    + material * 15 + self.lastmove_corrhist@[prev_move_idx as int
                    % LASTMOVE_CORRHIST_SIZE as int] * 15 + (self.cont_corr_value(ply, 1)
                    + self.cont_corr_value(ply, 3)) * 15,
                CORRHIST_GRAIN * 100,
            ),
        }
    }

    fn get_minor_index(&self, game: &GameState) -> (r: usize)
        ensures
            r == corr_slot(minor_mix(*game)),
            r < CORRHIST_SIZE,
    {
        let royals = if game.turn == PlayerColor::White {
            &game.white_royals
        } else {
            &game.black_royals
        };
        let mut h: u64 = game.minor_hash;
        if royals.len() > 0 {
            let kp = royals[0];
            h = h ^ (kp.x as u64).wrapping_mul(0x517cc1b727220a95);
            h = h ^ (kp.y as u64).wrapping_mul(0x9136a9a9f9065e33);
        }
        (h % 16384) as usize
    }

    /// The entry of the move `ago` plies before the last one together with the
    /// last one.
    fn cont_corr_index(&self, ply: usize, ago: usize) -> (r: Option<usize>)
        requires
            self.wf(),
            ply <= MAX_PLY,
            1 <= ago <= 3,
        ensures
            match r {
                Some(i) => self.cont_corr_at(ply as int, ago as int) == Some(i as int) && i
                    < CONT_CORRHIST_ENTRIES,
                None => self.cont_corr_at(ply as int, ago as int) is None,
            },
    {
        if ply <= ago {
            return None;
        }
        match (&self.move_history[ply - 1], &self.move_history[ply - ago - 1]) {
            (Some(cur), Some(prev)) => {
                let prev_piece: usize = self.moved_piece_history[ply - ago - 1] as usize;
                if prev_piece < 32 {
                    let prev_to: usize = hash_coord_32(prev.to.x, prev.to.y);
                    let piece: usize = cur.piece.piece_type.index();
                    let to: usize = hash_coord_32(cur.to.x, cur.to.y);
                    Some(((prev_piece * 32 + prev_to) * 32 + piece) * 32 + to)
                } else {
                    None
                }
            },
            _ => None,
        }
    }

    /// A raw evaluation with the correction applied, short of mate scores.
    pub fn adjusted_eval(
        &self,
        game: &GameState,
        raw_eval: i32,
        ply: usize,
        prev_move_idx: usize,
    ) -> (r: i32)
        requires
            self.wf(),
            ply <= MAX_PLY,
        ensures
            r == clamp(
                raw_eval + self.correction(*game, ply as int, prev_move_idx),
                -MATE_SCORE + 1,
                MATE_SCORE - 1,
            ),
    {
        let row: usize = color_index(game.turn);
        let mat_idx: usize = (game.material_hash % 16384) as usize;
        let material: i32 = self.material_corrhist[row][mat_idx];
        let minor_idx: usize = self.get_minor_index(game);
        let minor: i32 = self.minor_corrhist[row][minor_idx];
        let total: i32 = match self.corrhist_mode {
            CorrHistMode::PawnBased => {
                let pawn_idx: usize = (game.pawn_hash % 16384) as usize;
                let pawn: i32 = self.pawn_corrhist[row][pawn_idx];
                (pawn * 45 + material * 25 + minor * 30) / (CORRHIST_GRAIN * 100)
            },
            CorrHistMode::NonPawnBased => {
                let hash: u64 = if row == 0 {
                    game.white_nonpawn_hash
                } else {
                    game.black_nonpawn_hash
                };
                let nonpawn_idx: usize = (hash % 16384) as usize;
                let nonpawn: i32 = self.nonpawn_corrhist[row][nonpawn_idx];
                let lastmove: i32 = self.lastmove_corrhist[prev_move_idx % LASTMOVE_CORRHIST_SIZE];
                let mut cont: i32 = 0;
                if let Some(i) = self.cont_corr_index(ply, 1) {
                    cont += self.cont_corrhist[i];
                }
                if let Some(i) = self.cont_corr_index(ply, 3) {
                    cont += self.cont_corrhist[i];
                }
                (nonpawn * 35 + minor * 20 + material * 15 + lastmove * 15 + cont * 15) / (
                CORRHIST_GRAIN * 100)
            },
        };
        clamp_i64(
            raw_eval as i64 + total as i64,
            (-MATE_SCORE + 1) as i64,
            (MATE_SCORE - 1) as i64,
        ) as i32
    }

    /// The continuation corrections after a result `ago` plies back.
    pub open spec fn cont_corr_after(
        &self,
        table: Seq<i32>,
        ply: int,
        ago: int,
        scaled: int,
        weight: int,
    ) -> Seq<i32> {
        match self.cont_corr_at(ply, ago) {
            Some(i) => table.update(i, blended(table[i] as int, scaled, weight) as i32),
            None => table,
        }
    }

    /// What was learned from the difference between a search result and the
    /// static evaluation. Only the tables of the current mode change.
    pub open spec fn correction_learned(
        &self,
        before: &Searcher,
        game: GameState,
        ply: int,
        depth: int,
        difference: int,
        prev_move_idx: usize,
    ) -> bool {
        let row = color_row(game.turn);
        let scaled = difference * CORRHIST_GRAIN;
        let weight = depth_weight(depth);
        &&& table_blended(
            self.material_corrhist@,
            before.material_corrhist@,
            row,
            corr_slot(game.material_hash),
            scaled,
            weight,
        )
        &&& table_blended(
            self.minor_corrhist@,
            before.minor_corrhist@,
            row,
            corr_slot(minor_mix(game)),
            scaled,
            weight,
        )
        &&& before.corrhist_mode is PawnBased ==> {
            &&& table_blended(
                self.pawn_corrhist@,
                before.pawn_corrhist@,
                row,
                corr_slot(game.pawn_hash),
                scaled,
                weight,
            )
            &&& *self == (Searcher {
                material_corrhist: self.material_corrhist,
                minor_corrhist: self.minor_corrhist,
                pawn_corrhist: self.pawn_corrhist,
                ..*before
            })
        }
        &&& before.corrhist_mode is NonPawnBased ==> {
            let last = prev_move_idx as int % LASTMOVE_CORRHIST_SIZE as int;
            &&& table_blended(
                self.nonpawn_corrhist@,
                before.nonpawn_corrhist@,
                row,
                corr_slot(nonpawn_hash(game)),
                scaled,
                weight,
            )
            &&& self.lastmove_corrhist@ == before.lastmove_corrhist@.update(
                last,
                blended(
                    before.lastmove_corrhist@[last] as int,
                    scaled,
                    if weight <= 64 {
                        weight
                    } else {
                        64
                    },
                ) as i32,
            )
            &&& self.cont_corrhist@ == before.cont_corr_after(
                before.cont_corr_after(before.cont_corrhist@, ply, 1, scaled, weight),
                ply,
                3,
                scaled,
                weight / 2,
            )
            &&& *self == (Searcher {
                material_corrhist: self.material_corrhist,
                minor_corrhist: self.minor_corrhist,
                nonpawn_corrhist: self.nonpawn_corrhist,
                lastmove_corrhist: self.lastmove_corrhist,
                cont_corrhist: self.cont_corrhist,
                ..*before
            })
        }
    }

    /// Learns from the difference between a search result and the static
    /// evaluation. Positions in check and results by a capture or promotion
    /// teach nothing.
    pub fn update_correction_history(
        &mut self,
        game: &GameState,
        ply: usize,
        depth: usize,
        static_eval: i32,
        search_score: i32,
        best_move_is_quiet: bool,
        in_check: bool,
        prev_move_idx: usize,
    )
        requires
            old(self).wf(),
            ply <= MAX_PLY,
            depth <= 10_000,
            -8_000_000 <= search_score - static_eval <= 8_000_000,
        ensures
            final(self).wf(),
            in_check || !best_move_is_quiet ==> *final(self) == *old(self),
            !in_check && best_move_is_quiet ==> final(self).correction_learned(
                old(self),
                *game,
                ply as int,
                depth as int,
                search_score - static_eval,
                prev_move_idx,
            ),
    {
        if in_check || !best_move_is_quiet {
            return;
        }
        let scaled: i32 = (search_score - static_eval) * CORRHIST_GRAIN;
        let row: usize = color_index(game.turn);
        let weight: i32 = depth_weight_of(depth);
        let mat_idx: usize = (game.material_hash % 16384) as usize;
        blend_table(&mut self.material_corrhist, row, mat_idx, scaled, weight);
        let minor_idx: usize = self.get_minor_index(game);
        blend_table(&mut self.minor_corrhist, row, minor_idx, scaled, weight);
        match self.corrhist_mode {
            CorrHistMode::PawnBased => {
                let pawn_idx: usize = (game.pawn_hash % 16384) as usize;
                blend_table(&mut self.pawn_corrhist, row, pawn_idx, scaled, weight);
            },
            CorrHistMode::NonPawnBased => {
                let hash: u64 = if row == 0 {
                    game.white_nonpawn_hash
                } else {
                    game.black_nonpawn_hash
                };
                let nonpawn_idx: usize = (hash % 16384) as usize;
                blend_table(&mut self.nonpawn_corrhist, row, nonpawn_idx, scaled, weight);
                let last: usize = prev_move_idx % LASTMOVE_CORRHIST_SIZE;
                let last_entry: i32 = self.lastmove_corrhist[last];
                self.lastmove_corrhist[last] = blend(last_entry, scaled, min_i32(weight, 64));
                let first = self.cont_corr_index(ply, 1);
                let second = self.cont_corr_index(ply, 3);
                if let Some(i) = first {
                    let entry: i32 = self.cont_corrhist[i];
                    self.cont_corrhist[i] = blend(entry, scaled, weight);
                }
                if let Some(i) = second {
                    let entry: i32 = self.cont_corrhist[i];
                    self.cont_corrhist[i] = blend(entry, scaled, weight / 2);
                }
            },
        }
    }

    /// The score of a completed iteration is in the ring of recent scores and in
    /// the running average.
    pub open spec fn iteration_recorded(&self, before: &Searcher, best_score: i32) -> bool {
        &&& *self == (Searcher {
            hot: SearcherHot {
                iter_values: self.hot.iter_values,
                iter_idx: ((before.hot.iter_idx + 1) % 4) as usize,
                best_previous_average_score: (if before.hot.best_previous_average_score == 0 {
                    best_score as int
                } else {
                    tdiv(best_score + before.hot.best_previous_average_score, 2)
                }) as i32,
                ..before.hot
            },
            ..*before
        })
        &&& self.hot.iter_values@ == before.hot.iter_values@.update(
            before.hot.iter_idx as int,
            best_score,
        )
    }

    /// Takes the score of a completed iteration into the ring of recent scores
    /// and the running average.
    pub fn record_iteration(&mut self, best_score: i32)
        requires
            old(self).wf(),
            -INFINITY <= best_score <= INFINITY,
        ensures
            final(self).wf(),
            final(self).iteration_recorded(old(self), best_score),
    {
        self.hot.iter_values[self.hot.iter_idx] = best_score;
        self.hot.iter_idx = (self.hot.iter_idx + 1) % 4;
        if self.hot.best_previous_average_score == 0 {
            self.hot.best_previous_average_score = best_score;
        } else {
            self.hot.best_previous_average_score =
            (best_score + self.hot.best_previous_average_score) / 2;
        }
    }
}

/// One entry of a correction table was blended, the others are as before.
pub open spec fn table_blended(
    a: Seq<Vec<i32>>,
    b: Seq<Vec<i32>>,
    i: int,
    j: int,
    scaled: int,
    weight: int,
) -> bool {
    same_but(a, b, i, j) && a[i]@[j] == blended(b[i]@[j] as int, scaled, weight)
}

fn blend_table(t: &mut Vec<Vec<i32>>, i: usize, j: usize, scaled: i32, weight: i32)
    requires
        table_ok(old(t)@, 2, CORRHIST_SIZE as nat, CORRHIST_LIMIT as int),
        i < 2,
        j < CORRHIST_SIZE,
        0 <= weight <= 128,
    ensures
        table_ok(final(t)@, 2, CORRHIST_SIZE as nat, CORRHIST_LIMIT as int),
        table_blended(final(t)@, old(t)@, i as int, j as int, scaled as int, weight as int),
{
    let entry: i32 = t[i][j];
    t[i][j] = blend(entry, scaled, weight);
}

fn depth_weight_of(depth: usize) -> (r: i32)
    requires
        depth <= 10_000,
    ensures
        r == depth_weight(depth as int),
        1 <= r <= 128,
{
    assert(0 <= depth * depth <= 100_000_000) by (nonlinear_arith)
        requires
            0 <= depth <= 10_000,
    ;
    clamp_i32((depth * depth + 2 * depth + 1) as i32, 1, 128)
}

/// Corrections stay within their limit.
pub proof fn corrections_stay_within_limits(entry: int, scaled: int, weight: int)
    ensures
        -CORRHIST_LIMIT <= blended(entry, scaled, weight) <= CORRHIST_LIMIT,
{
}

/// A corrected evaluation is never a proven win or loss.
pub proof fn corrected_evaluation_is_not_decisive(raw: int, correction: int)
    ensures
        !crate::search::decisive(
            clamp(raw + correction, -MATE_SCORE + 1, MATE_SCORE - 1),
        ),
{
}

/// A bonus raises an entry that is below the limit.
pub proof fn bonus_raises_history(entry: int, bonus: int)
    requires
        -DEFAULT_HISTORY_MAX_GRAVITY <= entry < DEFAULT_HISTORY_MAX_GRAVITY,
        bonus > 0,
    ensures
        gravity(entry, bonus) > entry,
{
    let b = clamp(bonus, -DEFAULT_HISTORY_MAX_GRAVITY, DEFAULT_HISTORY_MAX_GRAVITY as int);
    let p = entry * b;
    assert(p < 16384 * b) by (nonlinear_arith)
        requires
            p == entry * b,
            entry < 16384,
            b > 0,
    ;
}

/// A malus never raises an entry, and lowers one that is not negative.
pub proof fn malus_lowers_history(entry: int, bonus: int)
    requires
        -DEFAULT_HISTORY_MAX_GRAVITY <= entry <= DEFAULT_HISTORY_MAX_GRAVITY,
        bonus < 0,
    ensures
        gravity(entry, bonus) <= entry,
        entry >= 0 ==> gravity(entry, bonus) < entry,
{
    let a = -clamp(bonus, -DEFAULT_HISTORY_MAX_GRAVITY, DEFAULT_HISTORY_MAX_GRAVITY as int);
    let p = entry * a;
    assert(-(16384 * a) <= p) by (nonlinear_arith)
        requires
            p == entry * a,
            -16384 <= entry,
            a > 0,
    ;
    assert(entry >= 0 ==> p >= 0) by (nonlinear_arith)
        requires
            p == entry * a,
            a > 0,
    ;
}

/// A correction moves toward a result, and not past it.
pub proof fn corrections_move_toward_results(entry: int, scaled: int, weight: int)
    requires
        -CORRHIST_LIMIT <= entry <= CORRHIST_LIMIT,
        -CORRHIST_LIMIT <= scaled <= CORRHIST_LIMIT,
        0 <= weight <= CORRHIST_WEIGHT_SCALE,
    ensures
        (if entry <= scaled {
            entry
        } else {
            scaled
        }) <= blended(entry, scaled, weight) <= (if entry <= scaled {
            scaled
        } else {
            entry
        }),
{
    let (lo, hi) = if entry <= scaled {
        (entry, scaled)
    } else {
        (scaled, entry)
    };
    let sum = entry * (CORRHIST_WEIGHT_SCALE - weight) + scaled * weight;
    assert(256 * lo <= sum <= 256 * hi) by (nonlinear_arith)
        requires
            sum == entry * (256 - weight) + scaled * weight,
            lo <= entry <= hi,
            lo <= scaled <= hi,
            0 <= weight <= 256,
    ;
}

/// Time stops no search before the first depth is complete, and none without a
/// time limit.
pub proof fn time_waits_for_the_first_depth(hot: SearcherHot, clock: ClockReading)
    requires
        hot.min_depth_required > 0 || hot.time_limit_ms == u128::MAX,
    ensures
        !hot.must_stop(clock),
{
}

/// When the time is over, it stays over while no node is searched.
pub proof fn time_stays_over(hot: SearcherHot, clock: ClockReading, later: ClockReading)
    requires
        hot.expires(clock),
        clock.elapsed_ms <= later.elapsed_ms,
        clock.iteration_ms <= later.iteration_ms,
        clock.budget_us == later.budget_us,
    ensures
        hot.expires(later),
{
    assert(clock.elapsed_ms * hot.nodes <= later.elapsed_ms * hot.nodes) by (nonlinear_arith)
        requires
            clock.elapsed_ms <= later.elapsed_ms,
            0 <= hot.nodes,
    ;
}

} // verus!
