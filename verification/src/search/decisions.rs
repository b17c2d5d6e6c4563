//! The decisions of a search node, each a function of plain values.
use crate::arith::{abs, abs_i32, clamp, clamp_i64, max, max_i32, max_i64, min, min_i32, tdiv};
use crate::moves::Move;
use crate::search::params::{
    DEFAULT_HISTORY_BONUS_BASE, DEFAULT_HISTORY_BONUS_CAP, DEFAULT_HISTORY_BONUS_SUB,
    DEFAULT_HLP_HISTORY_LEAF, DEFAULT_HLP_HISTORY_REDUCE, DEFAULT_HLP_MAX_DEPTH,
    DEFAULT_HLP_MIN_MOVES, DEFAULT_IIR_MIN_DEPTH, DEFAULT_LMP_BASE, DEFAULT_LMP_DEPTH_MULT,
    DEFAULT_LMR_CUTOFF_THRESH, DEFAULT_LMR_MIN_DEPTH, DEFAULT_LMR_MIN_MOVES,
    DEFAULT_LMR_TT_HISTORY_THRESH, DEFAULT_LOW_DEPTH_PROBCUT_MARGIN, DEFAULT_NMP_BASE,
    DEFAULT_NMP_DEPTH_MULT, DEFAULT_NMP_MIN_DEPTH, DEFAULT_NMP_REDUCTION_BASE,
    DEFAULT_NMP_REDUCTION_DIV, DEFAULT_PROBCUT_DEPTH_SUB, DEFAULT_PROBCUT_DIVISOR,
    DEFAULT_PROBCUT_IMPROVING, DEFAULT_PROBCUT_MARGIN, DEFAULT_PROBCUT_MIN_DEPTH,
    DEFAULT_RAZORING_LINEAR, DEFAULT_RAZORING_QUAD, DEFAULT_RFP_IMPROVING_MULT,
    DEFAULT_RFP_MAX_DEPTH, DEFAULT_RFP_MULT_NO_TT, DEFAULT_RFP_MULT_TT,
    DEFAULT_RFP_WORSENING_MULT, DEFAULT_SEE_CAPTURE_HIST_DIV, DEFAULT_SEE_CAPTURE_LINEAR,
    DEFAULT_SEE_QUIET_QUAD,
};
use crate::search::searcher::TT_MOVE_HISTORY_LIMIT;
use crate::search::tt_defs::{TTFlag, TTProbeResult};
use crate::search::{
    decisive, is_decisive, is_loss, is_win, losing, mate_in, mated_in, winning, NodeType,
    CORRHIST_GRAIN, INFINITY, MATE_SCORE, MATE_VALUE, MAX_PLY, NO_VALUE,
};
use vstd::prelude::*;

verus! {

/// Depths lie below this.
pub const DEPTH_LIMIT: usize = 1000;

/// A score lies between minus and plus infinity.
pub open spec fn is_score(v: int) -> bool {
    -INFINITY <= v <= INFINITY
}

/// A value brought between minus and plus infinity.
pub fn bounded(v: i32) -> (r: i32)
    ensures
        r == clamp(v as int, -INFINITY, INFINITY as int),
{
    if v < -INFINITY {
        -INFINITY
    } else if v > INFINITY {
        INFINITY
    } else {
        v
    }
}

/// What the transposition table knows of a position.
#[derive(Clone, Copy)]
pub struct TtView {
    pub hit: bool,
    pub best_move: Option<Move>,
    pub value: Option<i32>,
    /// The static evaluation, or [`NO_VALUE`].
    pub eval: i32,
    pub depth: usize,
    pub is_pv: bool,
    pub bound: TTFlag,
}

/// The reading of a table entry. Scores and evaluations that are there are
/// brought between minus and plus infinity.
pub open spec fn tt_reading(res: Option<TTProbeResult>) -> TtView {
    match res {
        Some(r) => TtView {
            hit: true,
            best_move: r.best_move,
            value: if r.tt_score == NO_VALUE {
                None
            } else {
                Some(clamp(r.tt_score as int, -INFINITY, INFINITY as int) as i32)
            },
            eval: if r.eval == NO_VALUE {
                NO_VALUE
            } else {
                clamp(r.eval as int, -INFINITY, INFINITY as int) as i32
            },
            depth: r.depth as usize,
            is_pv: r.is_pv,
            bound: r.flag,
        },
        None => TtView {
            hit: false,
            best_move: None,
            value: None,
            eval: NO_VALUE,
            depth: 0,
            is_pv: false,
            bound: TTFlag::NoBound,
        },
    }
}

impl TtView {
    pub open spec fn wf(&self) -> bool {
        &&& self.value matches Some(v) ==> is_score(v as int)
        &&& self.eval == NO_VALUE || is_score(self.eval as int)
    }
}

pub fn read_tt(res: Option<TTProbeResult>) -> (r: TtView)
    ensures
        r == tt_reading(res),
        r.wf(),
{
    match res {
        Some(r) => TtView {
            hit: true,
            best_move: r.best_move,
            value: if r.tt_score == NO_VALUE {
                None
            } else {
                Some(bounded(r.tt_score))
            },
            eval: if r.eval == NO_VALUE {
                NO_VALUE
            } else {
                bounded(r.eval)
            },
            depth: r.depth as usize,
            is_pv: r.is_pv,
            bound: r.flag,
        },
        None => TtView {
            hit: false,
            best_move: None,
            value: None,
            eval: NO_VALUE,
            depth: 0,
            is_pv: false,
            bound: TTFlag::NoBound,
        },
    }
}

/// A window after a test: closed with a score, or open.
pub enum Window {
    Closed(i32),
    Open(i32, i32),
}

/// A move that repeats a position is at hand: the score is at least a draw.
pub open spec fn repetition_window(alpha: int, beta: int, draw: int) -> Window {
    if draw >= beta {
        Window::Closed(draw as i32)
    } else {
        Window::Open(max(alpha, draw) as i32, beta as i32)
    }
}

pub fn apply_repetition(alpha: i32, beta: i32, draw: i32) -> (r: Window)
    ensures
        r == repetition_window(alpha as int, beta as int, draw as int),
{
    if draw >= beta {
        Window::Closed(draw)
    } else {
        Window::Open(max_i32(alpha, draw), beta)
    }
}

/// No score at `ply` is worse than being mated there, or better than mating on
/// the next ply.
pub open spec fn mate_distance_window(alpha: int, beta: int, ply: int) -> Window {
    let a = max(alpha, -MATE_VALUE + ply);
    let b = min(beta, MATE_VALUE - (ply + 1));
    if a >= b {
        Window::Closed(a as i32)
    } else {
        Window::Open(a as i32, b as i32)
    }
}

pub fn apply_mate_distance(alpha: i32, beta: i32, ply: usize) -> (r: Window)
    requires
        ply < MAX_PLY,
    ensures
        r == mate_distance_window(alpha as int, beta as int, ply as int),
{
    let a: i32 = max_i32(alpha, mated_in(ply));
    let b: i32 = min_i32(beta, mate_in(ply + 1));
    if a >= b {
        Window::Closed(a)
    } else {
        Window::Open(a, b)
    }
}

/// The static evaluation, or the table's score where its bound makes that the
/// better estimate.
pub open spec fn refined(eval: int, tt: TtView) -> int {
    match tt.value {
        Some(v) => if tt.hit && (if v > eval {
            tt.bound.lower()
        } else {
            tt.bound.upper()
        }) {
            v as int
        } else {
            eval
        },
        None => eval,
    }
}

pub fn refine_eval(eval: i32, tt: &TtView) -> (r: i32)
    ensures
        r == refined(eval as int, *tt),
{
    match tt.value {
        Some(v) => {
            let better = if v > eval {
                tt.bound.is_lower()
            } else {
                tt.bound.is_upper()
            };
            if tt.hit && better {
                v
            } else {
                eval
            }
        },
        None => eval,
    }
}

/// The depth in hindsight: one more where a reduced move turned out not to
/// improve the opponent's position, one less where it went well for both.
pub open spec fn hindsight(
    depth: int,
    prior_reduction: int,
    opponent_worsening: bool,
    eval_sum: int,
) -> int {
    let d = if prior_reduction >= 3 && !opponent_worsening {
        depth + 1
    } else {
        depth
    };
    if prior_reduction >= 2 && d >= 2 && eval_sum > 173 {
        d - 1
    } else {
        d
    }
}

pub fn hindsight_depth(
    depth: usize,
    prior_reduction: i32,
    opponent_worsening: bool,
    static_eval: i32,
    prev_eval: i32,
) -> (r: usize)
    requires
        depth < DEPTH_LIMIT,
    ensures
        r == hindsight(
            depth as int,
            prior_reduction as int,
            opponent_worsening,
            static_eval + prev_eval,
        ),
        depth > 0 ==> r > 0,
        r <= depth + 1,
{
    let mut d: usize = depth;
    if prior_reduction >= 3 && !opponent_worsening {
        d += 1;
    }
    if prior_reduction >= 2 && d >= 2 && static_eval as i64 + prev_eval as i64 > 173 {
        d -= 1;
    }
    d
}

/// The table's score, where its depth and bound suffice to cut off, the node
/// type fits, and the fifty-move counter is not close to its limit.
pub open spec fn cutoff_by_tt(
    tt: TtView,
    beta: int,
    depth: int,
    cut_node: bool,
    halfmove_clock: u32,
    rule_limit: i32,
) -> Option<i32> {
    match tt.value {
        Some(v) => {
            let fails_high = v >= beta;
            let depth_needed = if v <= beta && depth > 0 {
                depth - 1
            } else {
                depth
            };
            let rule_threshold = max((rule_limit as u32) - 4, 0);
            if tt.hit && tt.depth > depth_needed && (if fails_high {
                tt.bound.lower()
            } else {
                tt.bound.upper()
            }) && (cut_node == fails_high || depth > 5) && halfmove_clock < rule_threshold {
                Some(v)
            } else {
                None
            }
        },
        None => None,
    }
}

pub fn tt_cutoff(
    tt: &TtView,
    beta: i32,
    depth: usize,
    cut_node: bool,
    halfmove_clock: u32,
    rule_limit: i32,
) -> (r: Option<i32>)
    ensures
        r == cutoff_by_tt(*tt, beta as int, depth as int, cut_node, halfmove_clock, rule_limit),
{
    match tt.value {
        Some(v) => {
            let fails_high = v >= beta;
            let depth_needed: usize = if v <= beta && depth > 0 {
                depth - 1
            } else {
                depth
            };
            let bound_matches = if fails_high {
                tt.bound.is_lower()
            } else {
                tt.bound.is_upper()
            };
            let limit: u32 = #[verifier::truncate]
            (rule_limit as u32);
            let rule_threshold: u32 = limit.saturating_sub(4);
            if tt.hit && tt.depth > depth_needed && bound_matches && (cut_node == fails_high
                || depth > 5) && halfmove_clock < rule_threshold {
                Some(v)
            } else {
                None
            }
        },
        None => None,
    }
}

/// The evaluation is so low that only captures could help.
pub open spec fn razors(eval: int, alpha: int, depth: int) -> bool {
    eval < alpha - DEFAULT_RAZORING_LINEAR - DEFAULT_RAZORING_QUAD * (depth * depth)
}

pub fn should_razor(eval: i32, alpha: i32, depth: usize) -> (r: bool)
    requires
        depth <= DEPTH_LIMIT,
    ensures
        r == razors(eval as int, alpha as int, depth as int),
{
    assert(0 <= depth * depth <= 1_000_000) by (nonlinear_arith)
        requires
            0 <= depth <= 1000,
    ;
    let square: i64 = (depth * depth) as i64;
    let quad: i64 = DEFAULT_RAZORING_QUAD as i64;
    assert(0 <= quad * square <= 281_000_000) by (nonlinear_arith)
        requires
            quad == 281,
            0 <= square <= 1_000_000,
    ;
    (eval as i64) < alpha as i64 - DEFAULT_RAZORING_LINEAR as i64 - quad * square
}

/// By how much the evaluation has to exceed beta: more for depth, less where
/// the position improves or the opponent's worsens, more where the evaluation
/// is unreliable.
pub open spec fn futility_margin(
    depth: int,
    tt_hit: bool,
    improving: bool,
    opponent_worsening: bool,
    correction: int,
) -> int {
    let mult = if tt_hit {
        DEFAULT_RFP_MULT_TT
    } else {
        DEFAULT_RFP_MULT_NO_TT
    };
    mult * depth - ((if improving {
        tdiv(DEFAULT_RFP_IMPROVING_MULT * mult, 1024)
    } else {
        0
    }) + (if opponent_worsening {
        tdiv(DEFAULT_RFP_WORSENING_MULT * mult, 1024)
    } else {
        0
    })) + abs(correction) / 174665
}

/// The score to return where the evaluation exceeds beta by the margin.
pub open spec fn rfp_score(eval: int, beta: int, margin: int) -> Option<int> {
    if eval - margin >= beta && eval >= beta {
        Some(tdiv(2 * beta + eval, 3))
    } else {
        None
    }
}

/// Whether reverse futility pruning is looked at.
pub open spec fn rfp_applies(
    tt_pv: bool,
    depth: int,
    no_quiet_tt_move: bool,
    beta: int,
    eval: int,
) -> bool {
    !tt_pv && depth < DEFAULT_RFP_MAX_DEPTH && no_quiet_tt_move && !losing(beta) && !winning(eval)
}

pub fn reverse_futility(
    tt_pv: bool,
    depth: usize,
    no_quiet_tt_move: bool,
    beta: i32,
    eval: i32,
    tt_hit: bool,
    improving: bool,
    opponent_worsening: bool,
    correction: i32,
) -> (r: Option<i32>)
    requires
        depth <= DEPTH_LIMIT,
        is_score(beta as int),
        correction > i32::MIN,
    ensures
        r == (if rfp_applies(tt_pv, depth as int, no_quiet_tt_move, beta as int, eval as int) {
            match rfp_score(
                eval as int,
                beta as int,
                futility_margin(
                    depth as int,
                    tt_hit,
                    improving,
                    opponent_worsening,
                    correction as int,
                ),
            ) {
                Some(v) => Some(v as i32),
                None => None,
            }
        } else {
            None
        }),
        r matches Some(v) ==> is_score(v as int),
{
    if tt_pv || depth >= DEFAULT_RFP_MAX_DEPTH || !no_quiet_tt_move || is_loss(beta) || is_win(
        eval,
    ) {
        return None;
    }
    let mult: i64 = if tt_hit {
        DEFAULT_RFP_MULT_TT as i64
    } else {
        DEFAULT_RFP_MULT_NO_TT as i64
    };
    let mut bonus: i64 = 0;
    if improving {
        bonus += DEFAULT_RFP_IMPROVING_MULT as i64 * mult / 1024;
    }
    if opponent_worsening {
        bonus += DEFAULT_RFP_WORSENING_MULT as i64 * mult / 1024;
    }
    let margin: i64 = mult * depth as i64 - bonus + (abs_i32(correction) / 174665) as i64;
    assert(margin == futility_margin(
        depth as int,
        tt_hit,
        improving,
        opponent_worsening,
        correction as int,
    ));
    if eval as i64 - margin >= beta as i64 && eval >= beta {
        Some(((2 * beta as i64 + eval as i64) / 3) as i32)
    } else {
        None
    }
}

/// Whether giving the opponent a free move may prune a node.
pub open spec fn null_move_applies(
    cut_node: bool,
    allow_null: bool,
    depth: int,
    beta: int,
    static_eval: int,
) -> bool {
    cut_node && allow_null && depth >= DEFAULT_NMP_MIN_DEPTH && !losing(beta) && static_eval - (
    DEFAULT_NMP_DEPTH_MULT * depth) + DEFAULT_NMP_BASE >= beta
}

pub fn should_try_null_move(
    cut_node: bool,
    allow_null: bool,
    depth: usize,
    beta: i32,
    static_eval: i32,
) -> (r: bool)
    requires
        depth <= DEPTH_LIMIT,
    ensures
        r == null_move_applies(
            cut_node,
            allow_null,
            depth as int,
            beta as int,
            static_eval as int,
        ),
{
    let mult: i64 = DEFAULT_NMP_DEPTH_MULT as i64;
    let d: i64 = depth as i64;
    assert(0 <= mult * d <= 18_000) by (nonlinear_arith)
        requires
            mult == 18,
            0 <= d <= 1000,
    ;
    cut_node && allow_null && depth >= DEFAULT_NMP_MIN_DEPTH && !is_loss(beta) && static_eval as i64
        - mult * d + DEFAULT_NMP_BASE as i64 >= beta as i64
}

/// The depth after a null move.
pub open spec fn null_depth(depth: int) -> int {
    max(depth - (DEFAULT_NMP_REDUCTION_BASE + depth / DEFAULT_NMP_REDUCTION_DIV as int), 0)
}

pub fn null_move_depth(depth: usize) -> (r: usize)
    requires
        depth <= DEPTH_LIMIT,
    ensures
        r == null_depth(depth as int),
{
    depth.saturating_sub(DEFAULT_NMP_REDUCTION_BASE + depth / DEFAULT_NMP_REDUCTION_DIV)
}

/// The depth of a node without a table move.
pub open spec fn iir(depth: int, has_tt_move: bool) -> int {
    if depth >= DEFAULT_IIR_MIN_DEPTH && !has_tt_move {
        depth - 2
    } else {
        depth
    }
}

pub fn iir_depth(depth: usize, has_tt_move: bool) -> (r: usize)
    ensures
        r == iir(depth as int, has_tt_move),
{
    if depth >= DEFAULT_IIR_MIN_DEPTH && !has_tt_move {
        depth - 2
    } else {
        depth
    }
}

/// The bound that a good capture has to reach to prune a node.
pub open spec fn probcut_bound(beta: int, improving: bool) -> int {
    beta + DEFAULT_PROBCUT_MARGIN - (if improving {
        DEFAULT_PROBCUT_IMPROVING as int
    } else {
        0
    })
}

pub fn probcut_beta(beta: i32, improving: bool) -> (r: i32)
    requires
        is_score(beta as int),
    ensures
        r == probcut_bound(beta as int, improving),
{
    beta + DEFAULT_PROBCUT_MARGIN - if improving {
        DEFAULT_PROBCUT_IMPROVING
    } else {
        0
    }
}

/// Whether good captures are tried for pruning a node.
pub open spec fn probcut_applies(
    is_pv: bool,
    in_check: bool,
    depth: int,
    beta: int,
    tt_value: Option<i32>,
    bound: int,
) -> bool {
    !is_pv && !in_check && depth >= DEFAULT_PROBCUT_MIN_DEPTH && !decisive(beta) && (
    tt_value matches Some(v) ==> v >= bound)
}

pub fn should_try_probcut(
    is_pv: bool,
    in_check: bool,
    depth: usize,
    beta: i32,
    tt_value: Option<i32>,
    bound: i32,
) -> (r: bool)
    requires
        is_score(beta as int),
    ensures
        r == probcut_applies(
            is_pv,
            in_check,
            depth as int,
            beta as int,
            tt_value,
            bound as int,
        ),
{
    let value_ok = match tt_value {
        Some(v) => v >= bound,
        None => true,
    };
    !is_pv && !in_check && depth >= DEFAULT_PROBCUT_MIN_DEPTH && !is_decisive(beta) && value_ok
}

/// The depth to verify a good capture with.
pub open spec fn probcut_search_depth(depth: int, static_eval: int, beta: int) -> int {
    clamp(
        depth - DEFAULT_PROBCUT_DEPTH_SUB - tdiv(
            static_eval - beta,
            DEFAULT_PROBCUT_DIVISOR as int,
        ),
        0,
        depth,
    )
}

pub fn probcut_depth(depth: usize, static_eval: i32, beta: i32) -> (r: usize)
    requires
        depth <= DEPTH_LIMIT,
    ensures
        r == probcut_search_depth(depth as int, static_eval as int, beta as int),
        r <= depth,
{
    let d: i64 = depth as i64 - DEFAULT_PROBCUT_DEPTH_SUB as i64 - (static_eval as i64
        - beta as i64) / DEFAULT_PROBCUT_DIVISOR as i64;
    clamp_i64(d, 0, depth as i64) as usize
}

/// The bound that a table entry alone suffices to return.
pub open spec fn small_probcut_score(tt: TtView, beta: int, depth: int) -> Option<int> {
    let bound = beta + DEFAULT_LOW_DEPTH_PROBCUT_MARGIN;
    match tt.value {
        Some(v) => if tt.hit && tt.bound.lower() && tt.depth >= depth - 4 && v >= bound
            && !decisive(beta) && !decisive(v as int) {
            Some(bound)
        } else {
            None
        },
        None => None,
    }
}

pub fn small_probcut(tt: &TtView, beta: i32, depth: usize) -> (r: Option<i32>)
    requires
        is_score(beta as int),
        tt.wf(),
    ensures
        match r {
            Some(v) => small_probcut_score(*tt, beta as int, depth as int) == Some(v as int),
            None => small_probcut_score(*tt, beta as int, depth as int) is None,
        },
        r matches Some(v) ==> is_score(v as int),
{
    let bound: i32 = beta + DEFAULT_LOW_DEPTH_PROBCUT_MARGIN;
    match tt.value {
        Some(v) => if tt.hit && tt.bound.is_lower() && tt.depth >= depth.saturating_sub(4) && v
            >= bound && !is_decisive(beta) && !is_decisive(v) {
            Some(bound)
        } else {
            None
        },
        None => None,
    }
}

/// The score and depth for testing whether the table move is the only good
/// one.
pub open spec fn singular_terms(tt: TtView, depth: int, in_check: bool) -> Option<(i32, int)> {
    match tt.value {
        Some(v) => if depth >= 6 && !in_check && tt.best_move is Some && tt.hit && tt.bound.lower()
            && tt.depth >= depth - 3 && !decisive(v as int) {
            Some((v, (depth - 1) / 2))
        } else {
            None
        },
        None => None,
    }
}

pub fn singular_conditions(tt: &TtView, depth: usize, in_check: bool) -> (r: Option<(i32, usize)>)
    requires
        tt.wf(),
    ensures
        match r {
            Some((v, d)) => singular_terms(*tt, depth as int, in_check) == Some((v, d as int)),
            None => singular_terms(*tt, depth as int, in_check) is None,
        },
        r matches Some((v, d)) ==> d < depth && -MATE_SCORE <= v <= MATE_SCORE,
{
    match tt.value {
        Some(v) => if depth >= 6 && !in_check && tt.best_move.is_some() && tt.hit
            && tt.bound.is_lower() && tt.depth >= depth.saturating_sub(3) && !is_decisive(v) {
            Some((v, (depth - 1) / 2))
        } else {
            None
        },
        None => None,
    }
}

/// The bound that all other moves have to stay below.
pub open spec fn singular_bound(tt_score: int, depth: int, tt_move_history: int) -> int {
    tt_score - depth * 3 + tdiv(tt_move_history, 150)
}

pub fn singular_beta(tt_score: i32, depth: usize, tt_move_history: i32) -> (r: i32)
    requires
        -MATE_SCORE <= tt_score <= MATE_SCORE,
        depth <= DEPTH_LIMIT,
        -TT_MOVE_HISTORY_LIMIT <= tt_move_history <= TT_MOVE_HISTORY_LIMIT,
    ensures
        r == singular_bound(tt_score as int, depth as int, tt_move_history as int),
        -MATE_SCORE - 4000 <= r <= MATE_SCORE + 4000,
{
    tt_score - depth as i32 * 3 + tt_move_history / 150
}

/// What the search without the table move showed.
pub enum Singular {
    /// The move is singular; its depth is extended.
    Extend(i32),
    /// Other moves beat beta too; their score is returned.
    MultiCut,
    /// The move is not singular; its depth changes by this.
    Plain(i32),
}

pub open spec fn singular_outcome(
    value: int,
    bound: int,
    beta: int,
    depth: int,
    tt_capture: bool,
    correction: int,
    tt_value: Option<i32>,
    cut_node: bool,
) -> Singular {
    let unsure = abs(correction) / 256;
    let double = depth * 2 - (if tt_capture {
        5int
    } else {
        0
    }) - unsure;
    let triple = depth * 4 - (if tt_capture {
        10int
    } else {
        0
    }) - unsure;
    if value < bound {
        Singular::Extend(
            if value < bound - triple {
                3
            } else if value < bound - double {
                2
            } else {
                1
            },
        )
    } else if value >= beta && !decisive(value) {
        Singular::MultiCut
    } else if tt_value matches Some(v) && v >= beta {
        Singular::Plain(-3i32 as i32)
    } else if cut_node {
        Singular::Plain(-2i32 as i32)
    } else {
        Singular::Plain(0)
    }
}

pub fn judge_singular(
    value: i32,
    bound: i32,
    beta: i32,
    depth: usize,
    tt_capture: bool,
    correction: i32,
    tt_value: Option<i32>,
    cut_node: bool,
) -> (r: Singular)
    requires
        is_score(value as int),
        depth <= DEPTH_LIMIT,
        correction > i32::MIN,
    ensures
        r == singular_outcome(
            value as int,
            bound as int,
            beta as int,
            depth as int,
            tt_capture,
            correction as int,
            tt_value,
            cut_node,
        ),
        r matches Singular::Extend(e) ==> 1 <= e <= 3,
        r matches Singular::Plain(e) ==> -3 <= e <= 0,
{
    if value < bound {
        let unsure: i64 = (abs_i32(correction) / 256) as i64;
        let double: i64 = depth as i64 * 2 - (if tt_capture {
            5
        } else {
            0
        }) - unsure;
        let triple: i64 = depth as i64 * 4 - (if tt_capture {
            10
        } else {
            0
        }) - unsure;
        let mut extension: i32 = 1;
        if (value as i64) < bound as i64 - double {
            extension = 2;
        }
        if (value as i64) < bound as i64 - triple {
            extension = 3;
        }
        return Singular::Extend(extension);
    }
    if value >= beta && !is_decisive(value) {
        return Singular::MultiCut;
    }
    let tt_fails_high = match tt_value {
        Some(v) => v >= beta,
        None => false,
    };
    if tt_fails_high {
        Singular::Plain(-3)
    } else if cut_node {
        Singular::Plain(-2)
    } else {
        Singular::Plain(0)
    }
}

/// After so many moves quiet ones are skipped.
pub open spec fn late_move_count(depth: int, improving: bool) -> int {
    (DEFAULT_LMP_BASE + depth * depth * DEFAULT_LMP_DEPTH_MULT) / (if improving {
        1
    } else {
        2
    })
}

pub fn lmp_count(depth: usize, improving: bool) -> (r: usize)
    requires
        depth <= DEPTH_LIMIT,
    ensures
        r == late_move_count(depth as int, improving),
{
    assert(0 <= depth * depth <= 1_000_000) by (nonlinear_arith)
        requires
            0 <= depth <= 1000,
    ;
    let square: usize = depth * depth;
    let mult: usize = DEFAULT_LMP_DEPTH_MULT;
    assert(square * mult == square) by (nonlinear_arith)
        requires
            mult == 1,
    ;
    (DEFAULT_LMP_BASE + square * mult) / if improving {
        1
    } else {
        2
    }
}

/// A capture that cannot raise alpha.
pub open spec fn capture_is_futile(
    static_eval: int,
    lmr_depth: int,
    captured_value: int,
    capture_history: int,
    alpha: int,
) -> bool {
    static_eval + 232 + 217 * lmr_depth + captured_value + tdiv(131 * capture_history, 1024)
        <= alpha
}

pub fn is_capture_futile(
    static_eval: i32,
    lmr_depth: i32,
    captured_value: i32,
    capture_history: i32,
    alpha: i32,
) -> (r: bool)
    ensures
        r == capture_is_futile(
            static_eval as int,
            lmr_depth as int,
            captured_value as int,
            capture_history as int,
            alpha as int,
        ),
{
    static_eval as i64 + 232 + 217 * lmr_depth as i64 + captured_value as i64 + (131
        * capture_history as i64) / 1024 <= alpha as i64
}

/// How much a capture may lose in exchanges.
pub open spec fn capture_see_allowance(depth: int, capture_history: int) -> int {
    max(
        DEFAULT_SEE_CAPTURE_LINEAR * depth + tdiv(
            capture_history,
            DEFAULT_SEE_CAPTURE_HIST_DIV as int,
        ),
        0,
    )
}

pub fn loses_capture(see: i32, depth: usize, capture_history: i32) -> (r: bool)
    requires
        depth <= DEPTH_LIMIT,
    ensures
        r == (see < -capture_see_allowance(depth as int, capture_history as int)),
{
    let linear: i64 = DEFAULT_SEE_CAPTURE_LINEAR as i64;
    let d: i64 = depth as i64;
    assert(0 <= linear * d <= 106_000) by (nonlinear_arith)
        requires
            linear == 106,
            0 <= d <= 1000,
    ;
    let margin: i64 = max_i64(
        linear * d + (capture_history / DEFAULT_SEE_CAPTURE_HIST_DIV) as i64,
        0,
    );
    (see as i64) < -margin
}

/// A quiet move with a very bad history.
pub open spec fn history_prunes(history: int, depth: int) -> bool {
    history < -4083 * depth
}

pub fn is_pruned_by_history(history: i32, depth: usize) -> (r: bool)
    requires
        depth <= DEPTH_LIMIT,
    ensures
        r == history_prunes(history as int, depth as int),
{
    (history as i64) < -4083 * depth as i64
}

/// The depth that a quiet move is expected to be searched with.
pub open spec fn quiet_depth(new_depth: int, history: int) -> int {
    max(new_depth + tdiv(history, 3208), 0)
}

pub fn expected_quiet_depth(new_depth: usize, history: i32) -> (r: i32)
    requires
        new_depth <= DEPTH_LIMIT,
        -16384 <= history <= 16384,
    ensures
        r == quiet_depth(new_depth as int, history as int),
        0 <= r <= DEPTH_LIMIT + 5,
{
    max_i32(new_depth as i32 + history / 3208, 0)
}

/// The most that a quiet move of an expected depth is hoped to reach.
pub open spec fn quiet_futility(static_eval: int, has_best: bool, expected: int) -> int {
    static_eval + 42 + (if has_best {
        0int
    } else {
        161
    }) + 127 * expected
}

pub fn quiet_futility_value(static_eval: i32, has_best: bool, expected: i32) -> (r: i32)
    requires
        -961_000_000 <= static_eval <= 961_000_000,
        0 <= expected <= DEPTH_LIMIT + 5,
    ensures
        r == quiet_futility(static_eval as int, has_best, expected as int),
{
    static_eval + 42 + (if has_best {
        0
    } else {
        161
    }) + 127 * expected
}

/// A quiet move that loses too much in exchanges for its expected depth.
pub open spec fn quiet_loses(see: int, expected: int) -> bool {
    see < -(DEFAULT_SEE_QUIET_QUAD * (expected * expected))
}

pub fn loses_quiet(see: i32, expected: i32) -> (r: bool)
    requires
        0 <= expected <= DEPTH_LIMIT + 5,
    ensures
        r == quiet_loses(see as int, expected as int),
{
    let e: i64 = expected as i64;
    assert(0 <= e * e <= 1_010_025) by (nonlinear_arith)
        requires
            0 <= e <= 1005,
    ;
    let square: i64 = e * e;
    let quad: i64 = DEFAULT_SEE_QUIET_QUAD as i64;
    assert(0 <= quad * square <= 25_250_625) by (nonlinear_arith)
        requires
            quad == 25,
            0 <= square <= 1_010_025,
    ;
    (see as i64) < -(quad * square)
}

/// Whether a move is searched with reduced depth first.
pub open spec fn reduces(
    depth: int,
    moves: int,
    in_check: bool,
    is_capture: bool,
    queen_check: bool,
) -> bool {
    depth >= DEFAULT_LMR_MIN_DEPTH && moves >= DEFAULT_LMR_MIN_MOVES && !in_check && !is_capture
        && !queen_check
}

pub fn should_reduce(
    depth: usize,
    moves: usize,
    in_check: bool,
    is_capture: bool,
    queen_check: bool,
) -> (r: bool)
    ensures
        r == reduces(depth as int, moves as int, in_check, is_capture, queen_check),
{
    depth >= DEFAULT_LMR_MIN_DEPTH && moves >= DEFAULT_LMR_MIN_MOVES && !in_check && !is_capture
        && !queen_check
}

/// What adjusts the reduction of a late move.
#[derive(Clone, Copy)]
pub struct LmrInputs {
    /// The reduction by depth and number of the move alone.
    pub base: i32,
    pub improving: bool,
    /// Main and pawn history of the move.
    pub history: i32,
    /// The corrected minus the raw evaluation.
    pub correction: i32,
    pub shuffling: bool,
    /// Fail highs on the next ply.
    pub next_cutoffs: u8,
    pub all_node: bool,
    pub tt_move_history: i32,
}

/// The reduction of a late move: more where the position does not improve, the
/// move shuffles or the next ply fails high a lot; less for a good history, an
/// unreliable evaluation or unreliable table moves.
pub open spec fn lmr(i: LmrInputs, depth: int) -> int {
    let r = i.base + (if i.improving {
        0int
    } else {
        1
    }) - tdiv(i.history as int, 4096) - clamp(
        abs(i.correction * CORRHIST_GRAIN) / 30370,
        0,
        2,
    ) + (if i.shuffling {
        1int
    } else {
        0
    }) + (if i.next_cutoffs > DEFAULT_LMR_CUTOFF_THRESH {
        if i.all_node {
            2int
        } else {
            1
        }
    } else {
        0
    });
    clamp(
        if i.tt_move_history < DEFAULT_LMR_TT_HISTORY_THRESH && r > 0 {
            r - 1
        } else {
            r
        },
        0,
        depth - 2,
    )
}

pub fn lmr_reduction(i: LmrInputs, depth: usize) -> (r: i32)
    requires
        2 <= depth <= DEPTH_LIMIT,
    ensures
        r == lmr(i, depth as int),
        0 <= r <= depth - 2,
{
    let mut reduction: i64 = i.base as i64;
    if !i.improving {
        reduction += 1;
    }
    reduction -= (i.history / 4096) as i64;
    let c: i64 = i.correction as i64;
    let correction: i64 = c * 256;
    let size: i64 = if correction < 0 {
        -correction
    } else {
        correction
    };
    reduction -= clamp_i64(size / 30370, 0, 2);
    if i.shuffling {
        reduction += 1;
    }
    if i.next_cutoffs > DEFAULT_LMR_CUTOFF_THRESH {
        reduction += 1;
        if i.all_node {
            reduction += 1;
        }
    }
    if i.tt_move_history < DEFAULT_LMR_TT_HISTORY_THRESH && reduction > 0 {
        reduction -= 1;
    }
    clamp_i64(reduction, 0, depth as i64 - 2) as i32
}

/// Whether a late quiet move may be dropped for its history.
pub open spec fn leaf_prunable(
    quiet: bool,
    gives_check: bool,
    in_check: bool,
    is_pv: bool,
    depth: int,
    moves: int,
    best_score: int,
) -> bool {
    !in_check && !is_pv && quiet && !gives_check && depth <= DEFAULT_HLP_MAX_DEPTH && moves
        >= DEFAULT_HLP_MIN_MOVES && !losing(best_score)
}

/// What history leaf pruning does with a move.
pub enum LeafVerdict {
    Drop,
    /// The depth to go on with.
    Keep(i32),
}

pub open spec fn leaf_verdict(new_depth: int, history: int) -> LeafVerdict {
    if history >= DEFAULT_HLP_HISTORY_REDUCE {
        LeafVerdict::Keep(new_depth as i32)
    } else if new_depth - 1 <= 0 && history < DEFAULT_HLP_HISTORY_LEAF {
        LeafVerdict::Drop
    } else {
        LeafVerdict::Keep((new_depth - 1) as i32)
    }
}

pub fn judge_leaf(new_depth: i32, history: i32) -> (r: LeafVerdict)
    requires
        -2000 <= new_depth <= 2000,
    ensures
        r == leaf_verdict(new_depth as int, history as int),
{
    if history >= DEFAULT_HLP_HISTORY_REDUCE {
        return LeafVerdict::Keep(new_depth);
    }
    let d: i32 = new_depth - 1;
    if d <= 0 && history < DEFAULT_HLP_HISTORY_LEAF {
        LeafVerdict::Drop
    } else {
        LeafVerdict::Keep(d)
    }
}

pub fn may_prune_leaf(
    quiet: bool,
    gives_check: bool,
    in_check: bool,
    is_pv: bool,
    depth: usize,
    moves: usize,
    best_score: i32,
) -> (r: bool)
    ensures
        r == leaf_prunable(
            quiet,
            gives_check,
            in_check,
            is_pv,
            depth as int,
            moves as int,
            best_score as int,
        ),
{
    !in_check && !is_pv && quiet && !gives_check && depth <= DEFAULT_HLP_MAX_DEPTH && moves
        >= DEFAULT_HLP_MIN_MOVES && !is_loss(best_score)
}

/// The depth of the second search: deeper where the first did well, shallower
/// where it hardly beat the best score.
pub open spec fn research(base: int, searched: int, score: int, best_score: int) -> int {
    max(
        base + (if searched < base && score > best_score + 43 + 2 * base {
            1int
        } else {
            0
        }) - (if score < best_score + 9 {
            1int
        } else {
            0
        }),
        0,
    )
}

pub fn research_depth(base: i32, searched: usize, score: i32, best_score: i32) -> (r: usize)
    requires
        -2000 <= base <= 2000,
        searched <= 2000,
    ensures
        r == research(base as int, searched as int, score as int, best_score as int),
        r <= 2001,
{
    let deeper = (searched as i64) < base as i64 && score as i64 > best_score as i64 + 43 + 2
        * base as i64;
    let shallower = (score as i64) < best_score as i64 + 9;
    let d: i32 = base + (if deeper {
        1
    } else {
        0
    }) - (if shallower {
        1
    } else {
        0
    });
    max_i32(d, 0) as usize
}

/// The depth of the table move on the principal variation, which does not drop
/// into quiescence where the table knows a mate or a deep result.
pub open spec fn pv_floor(depth: int, on_tt_move: bool, tt: TtView) -> int {
    if depth == 0 && on_tt_move && ((tt.value matches Some(v) && decisive(v as int) && tt.depth > 0)
        || tt.depth > 1) {
        1
    } else {
        depth
    }
}

pub fn pv_depth(depth: usize, on_tt_move: bool, tt: &TtView) -> (r: usize)
    requires
        tt.wf(),
    ensures
        r == pv_floor(depth as int, on_tt_move, *tt),
{
    let mate_known = match tt.value {
        Some(v) => is_decisive(v) && tt.depth > 0,
        None => false,
    };
    if depth == 0 && on_tt_move && (mate_known || tt.depth > 1) {
        1
    } else {
        depth
    }
}

/// The history bonus for a cutoff at a depth.
pub open spec fn bonus_for(depth: int) -> int {
    min(
        DEFAULT_HISTORY_BONUS_BASE * depth - DEFAULT_HISTORY_BONUS_SUB,
        DEFAULT_HISTORY_BONUS_CAP as int,
    )
}

pub fn history_bonus(depth: usize) -> (r: i32)
    requires
        depth <= DEPTH_LIMIT,
    ensures
        r == bonus_for(depth as int),
        -250 <= r <= 1536,
{
    let base: i32 = DEFAULT_HISTORY_BONUS_BASE;
    let d: i32 = depth as i32;
    assert(0 <= base * d <= 300_000) by (nonlinear_arith)
        requires
            base == 300,
            0 <= d <= 1000,
    ;
    min_i32(base * d - DEFAULT_HISTORY_BONUS_SUB, DEFAULT_HISTORY_BONUS_CAP)
}

/// The score of a node without legal moves: lost in check that must be escaped
/// or without pieces, else stalemate.
pub open spec fn terminal_score(checkmate: bool, no_pieces: bool, ply: int) -> int {
    if checkmate || no_pieces {
        -MATE_VALUE + ply
    } else {
        0
    }
}

pub fn score_without_moves(checkmate: bool, no_pieces: bool, ply: usize) -> (r: i32)
    requires
        ply <= MAX_PLY,
    ensures
        r == terminal_score(checkmate, no_pieces, ply as int),
{
    if checkmate || no_pieces {
        mated_in(ply)
    } else {
        0
    }
}

/// A score above beta is drawn toward beta, the more the shallower the search.
pub open spec fn softened(score: int, alpha: int, beta: int, depth: int) -> int {
    if score >= beta && !decisive(score) && !decisive(alpha) {
        tdiv(score * depth + beta, depth + 1)
    } else {
        score
    }
}

pub fn soften_fail_high(score: i32, alpha: i32, beta: i32, depth: usize) -> (r: i32)
    requires
        is_score(score as int),
        is_score(alpha as int),
        is_score(beta as int),
        depth <= DEPTH_LIMIT,
    ensures
        r == softened(score as int, alpha as int, beta as int, depth as int),
        is_score(r as int),
{
    if score >= beta && !is_decisive(score) && !is_decisive(alpha) {
        let d: i64 = depth as i64;
        let s: i64 = score as i64;
        assert(-1_000_000 * 1000 <= s * d <= 1_000_000 * 1000) by (nonlinear_arith)
            requires
                -1_000_000 <= s <= 1_000_000,
                0 <= d <= 1000,
        ;
        let sum: i64 = s * d + beta as i64;
        proof {
            lemma_soften_bounds(s as int, beta as int, d as int);
        }
        let n: i64 = d + 1;
        (sum / n) as i32
    } else {
        score
    }
}

proof fn lemma_soften_bounds(s: int, b: int, d: int)
    requires
        -MATE_SCORE <= s <= MATE_SCORE,
        -INFINITY <= b <= s,
        0 <= d,
    ensures
        -INFINITY <= tdiv(s * d + b, d + 1) <= INFINITY,
{
    let sum = s * d + b;
    let n = d + 1;
    assert(sum <= MATE_SCORE * n) by (nonlinear_arith)
        requires
            sum == s * d + b,
            n == d + 1,
            s <= MATE_SCORE,
            b <= s,
            0 <= d,
    ;
    assert(-(INFINITY * n) <= sum) by (nonlinear_arith)
        requires
            sum == s * d + b,
            n == d + 1,
            -INFINITY <= s,
            -INFINITY <= b,
            0 <= d,
    ;
    if sum >= 0 {
        assert(0 <= sum / n <= MATE_SCORE) by (nonlinear_arith)
            requires
                0 <= sum <= MATE_SCORE * n,
                1 <= n,
        ;
    } else {
        let m = -sum;
        assert(0 <= m / n <= INFINITY) by (nonlinear_arith)
            requires
                0 <= m,
                m <= INFINITY * n,
                1 <= n,
        ;
    }
}

/// How a result relates to the true score, by the window it was found in.
pub open spec fn flag_of(score: int, alpha: int, beta: int) -> TTFlag {
    if score <= alpha {
        TTFlag::UpperBound
    } else if score >= beta {
        TTFlag::LowerBound
    } else {
        TTFlag::Exact
    }
}

pub fn tt_flag(score: i32, alpha: i32, beta: i32) -> (r: TTFlag)
    ensures
        r == flag_of(score as int, alpha as int, beta as int),
{
    if score <= alpha {
        TTFlag::UpperBound
    } else if score >= beta {
        TTFlag::LowerBound
    } else {
        TTFlag::Exact
    }
}

/// Whether a result may teach the correction tables: a bound must not lie on
/// the wrong side of the evaluation.
pub open spec fn teaches(flag: TTFlag, score: int, raw_eval: int) -> bool {
    match flag {
        TTFlag::LowerBound => score >= raw_eval,
        TTFlag::UpperBound => score <= raw_eval,
        TTFlag::Exact => true,
        TTFlag::NoBound => false,
    }
}

pub fn should_update_correction(flag: TTFlag, score: i32, raw_eval: i32) -> (r: bool)
    ensures
        r == teaches(flag, score as int, raw_eval as int),
{
    match flag {
        TTFlag::LowerBound => score >= raw_eval,
        TTFlag::UpperBound => score <= raw_eval,
        TTFlag::Exact => true,
        TTFlag::NoBound => false,
    }
}

/// The type of a child node: the first child of a principal variation node is
/// one itself; otherwise cut and all nodes alternate.
pub open spec fn child_type(parent: NodeType, first: bool) -> NodeType {
    if first && parent is PV {
        NodeType::PV
    } else if parent is Cut {
        NodeType::All
    } else {
        NodeType::Cut
    }
}

pub fn child_node_type(parent: NodeType, first: bool) -> (r: NodeType)
    ensures
        r == child_type(parent, first),
{
    if first && parent == NodeType::PV {
        NodeType::PV
    } else if parent == NodeType::Cut {
        NodeType::All
    } else {
        NodeType::Cut
    }
}

/// A score above beta is drawn halfway to beta in quiescence.
pub open spec fn halved(score: int, beta: int) -> int {
    if decisive(score) {
        score
    } else {
        tdiv(score + beta, 2)
    }
}

pub fn soften_stand_pat(score: i32, beta: i32) -> (r: i32)
    requires
        is_score(score as int),
        is_score(beta as int),
    ensures
        r == halved(score as int, beta as int),
        is_score(r as int),
{
    if is_decisive(score) {
        score
    } else {
        (score + beta) / 2
    }
}

/// A softened score lies between beta and the score.
pub proof fn softening_stays_between(score: int, alpha: int, beta: int, depth: int)
    requires
        0 <= depth,
        beta <= score,
    ensures
        beta <= softened(score, alpha, beta, depth) <= score,
{
    let sum = score * depth + beta;
    let n = depth + 1;
    assert(beta * n <= sum <= score * n) by (nonlinear_arith)
        requires
            sum == score * depth + beta,
            n == depth + 1,
            beta <= score,
            0 <= depth,
    ;
    if sum >= 0 {
        let q = sum / n;
        assert(beta <= q <= score) by (nonlinear_arith)
            requires
                q == sum / n,
                beta * n <= sum <= score * n,
                n > 0,
                sum >= 0,
        ;
    } else {
        let m = -sum;
        let q = m / n;
        assert(beta <= -q <= score) by (nonlinear_arith)
            requires
                q == m / n,
                beta * n <= -m <= score * n,
                n > 0,
                m > 0,
        ;
    }
}

/// Mate distance pruning never widens a window, and closes it only on a score
/// that is no worse than being mated at the node.
pub proof fn mate_distance_never_widens(alpha: int, beta: int, ply: int)
    requires
        is_score(alpha),
        is_score(beta),
        alpha < beta,
        0 <= ply <= MAX_PLY,
    ensures
        match mate_distance_window(alpha, beta, ply) {
            Window::Closed(v) => v >= alpha && v >= -MATE_VALUE + ply,
            Window::Open(a, b) => alpha <= a < b <= beta,
        },
{
}

} // verus!
