//! The tunable constants of the search.
use vstd::prelude::*;

verus! {

pub const DEFAULT_RAZORING_LINEAR: i32 = 485;

pub const DEFAULT_RAZORING_QUAD: i32 = 281;

pub const DEFAULT_NMP_REDUCTION: usize = 3;

pub const DEFAULT_NMP_MIN_DEPTH: usize = 3;

pub const DEFAULT_NMP_BASE: i32 = 350;

pub const DEFAULT_NMP_DEPTH_MULT: i32 = 18;

pub const DEFAULT_NMP_REDUCTION_BASE: usize = 7;

pub const DEFAULT_NMP_REDUCTION_DIV: usize = 3;

pub const DEFAULT_LMR_MIN_DEPTH: usize = 3;

pub const DEFAULT_LMR_MIN_MOVES: usize = 4;

pub const DEFAULT_LMR_DIVISOR: usize = 3;

pub const DEFAULT_LMR_HISTORY_THRESH: i32 = 2000;

pub const DEFAULT_LMR_CUTOFF_THRESH: u8 = 2;

pub const DEFAULT_LMR_TT_HISTORY_THRESH: i32 = -1000;

pub const DEFAULT_HLP_MAX_DEPTH: usize = 3;

pub const DEFAULT_HLP_MIN_MOVES: usize = 4;

pub const DEFAULT_HLP_HISTORY_REDUCE: i32 = 300;

pub const DEFAULT_HLP_HISTORY_LEAF: i32 = 0;

pub const DEFAULT_LMP_BASE: usize = 3;

pub const DEFAULT_LMP_DEPTH_MULT: usize = 1;

pub const DEFAULT_ASPIRATION_WINDOW: i32 = 60;

pub const DEFAULT_ASPIRATION_FAIL_MULT: i32 = 4;

pub const DEFAULT_ASPIRATION_MAX_WINDOW: i32 = 1000;

pub const DEFAULT_FUTILITY_MARGIN: [i32; 4] = [0, 95, 190, 285];

pub const DEFAULT_RFP_MAX_DEPTH: usize = 14;

pub const DEFAULT_RFP_MULT_TT: i32 = 76;

pub const DEFAULT_RFP_MULT_NO_TT: i32 = 53;

pub const DEFAULT_RFP_IMPROVING_MULT: i32 = 2474;

pub const DEFAULT_RFP_WORSENING_MULT: i32 = 331;

pub const DEFAULT_PROBCUT_MARGIN: i32 = 235;

pub const DEFAULT_PROBCUT_IMPROVING: i32 = 63;

pub const DEFAULT_PROBCUT_MIN_DEPTH: usize = 5;

pub const DEFAULT_PROBCUT_DEPTH_SUB: usize = 4;

pub const DEFAULT_PROBCUT_DIVISOR: i32 = 315;

pub const DEFAULT_LOW_DEPTH_PROBCUT_MARGIN: i32 = 800;

pub const DEFAULT_IIR_MIN_DEPTH: usize = 6;

pub const DEFAULT_SEE_CAPTURE_LINEAR: i32 = 106;

pub const DEFAULT_SEE_CAPTURE_HIST_DIV: i32 = 29;

pub const DEFAULT_SEE_QUIET_QUAD: i32 = 25;

pub const DEFAULT_SEE_WINNING_THRESHOLD: i32 = 0;

pub const DEFAULT_SORT_HASH: i32 = 6000000;

pub const DEFAULT_SORT_WINNING_CAPTURE: i32 = 1000000;

pub const DEFAULT_SORT_LOSING_CAPTURE: i32 = 0;

pub const DEFAULT_SORT_QUIET: i32 = 0;

pub const DEFAULT_SORT_KILLER1: i32 = 900000;

pub const DEFAULT_SORT_KILLER2: i32 = 800000;

pub const DEFAULT_SORT_COUNTERMOVE: i32 = 600000;

pub const DEFAULT_MAX_HISTORY: i32 = 16384;

pub const DEFAULT_HISTORY_BONUS_BASE: i32 = 300;

pub const DEFAULT_HISTORY_BONUS_SUB: i32 = 250;

pub const DEFAULT_HISTORY_BONUS_CAP: i32 = 1536;

pub const DEFAULT_HISTORY_MAX_GRAVITY: i32 = 16384;

pub const DEFAULT_PAWN_HISTORY_BONUS_SCALE: i32 = 2;

pub const DEFAULT_PAWN_HISTORY_MALUS_SCALE: i32 = 1;

pub const DEFAULT_DELTA_MARGIN: i32 = 200;

/// The tunable constants as one value, for tools that adjust them.
#[derive(Debug, Clone, Copy, PartialEq, Eq, Structural)]
pub struct SearchParams {
    pub razoring_linear: i32,
    pub razoring_quad: i32,
    pub nmp_reduction: usize,
    pub nmp_min_depth: usize,
    pub nmp_base: i32,
    pub nmp_depth_mult: i32,
    pub nmp_reduction_base: usize,
    pub nmp_reduction_div: usize,
    pub lmr_min_depth: usize,
    pub lmr_min_moves: usize,
    pub lmr_divisor: usize,
    pub lmr_history_thresh: i32,
    pub lmr_cutoff_thresh: u8,
    pub lmr_tt_history_thresh: i32,
    pub hlp_max_depth: usize,
    pub hlp_min_moves: usize,
    pub hlp_history_reduce: i32,
    pub hlp_history_leaf: i32,
    pub lmp_base: usize,
    pub lmp_depth_mult: usize,
    pub aspiration_window: i32,
    pub aspiration_fail_mult: i32,
    pub aspiration_max_window: i32,
    pub rfp_max_depth: usize,
    pub rfp_mult_tt: i32,
    pub rfp_mult_no_tt: i32,
    pub rfp_improving_mult: i32,
    pub rfp_worsening_mult: i32,
    pub probcut_margin: i32,
    pub probcut_improving: i32,
    pub probcut_min_depth: usize,
    pub probcut_depth_sub: usize,
    pub probcut_divisor: i32,
    pub low_depth_probcut_margin: i32,
    pub iir_min_depth: usize,
    pub see_capture_linear: i32,
    pub see_capture_hist_div: i32,
    pub see_quiet_quad: i32,
    pub see_winning_threshold: i32,
    pub sort_hash: i32,
    pub sort_winning_capture: i32,
    pub sort_killer1: i32,
    pub sort_killer2: i32,
    pub sort_countermove: i32,
    pub max_history: i32,
    pub history_bonus_base: i32,
    pub history_bonus_sub: i32,
    pub history_bonus_cap: i32,
    pub pawn_history_bonus_scale: i32,
    pub pawn_history_malus_scale: i32,
    pub delta_margin: i32,
}

/// The values that the search uses.
pub open spec fn default_params() -> SearchParams {
    SearchParams {
        razoring_linear: DEFAULT_RAZORING_LINEAR,
        razoring_quad: DEFAULT_RAZORING_QUAD,
        nmp_reduction: DEFAULT_NMP_REDUCTION,
        nmp_min_depth: DEFAULT_NMP_MIN_DEPTH,
        nmp_base: DEFAULT_NMP_BASE,
        nmp_depth_mult: DEFAULT_NMP_DEPTH_MULT,
        nmp_reduction_base: DEFAULT_NMP_REDUCTION_BASE,
        nmp_reduction_div: DEFAULT_NMP_REDUCTION_DIV,
        lmr_min_depth: DEFAULT_LMR_MIN_DEPTH,
        lmr_min_moves: DEFAULT_LMR_MIN_MOVES,
        lmr_divisor: DEFAULT_LMR_DIVISOR,
        lmr_history_thresh: DEFAULT_LMR_HISTORY_THRESH,
        lmr_cutoff_thresh: DEFAULT_LMR_CUTOFF_THRESH,
        lmr_tt_history_thresh: DEFAULT_LMR_TT_HISTORY_THRESH,
        hlp_max_depth: DEFAULT_HLP_MAX_DEPTH,
        hlp_min_moves: DEFAULT_HLP_MIN_MOVES,
        hlp_history_reduce: DEFAULT_HLP_HISTORY_REDUCE,
        hlp_history_leaf: DEFAULT_HLP_HISTORY_LEAF,
        lmp_base: DEFAULT_LMP_BASE,
        lmp_depth_mult: DEFAULT_LMP_DEPTH_MULT,
        aspiration_window: DEFAULT_ASPIRATION_WINDOW,
        aspiration_fail_mult: DEFAULT_ASPIRATION_FAIL_MULT,
        aspiration_max_window: DEFAULT_ASPIRATION_MAX_WINDOW,
        rfp_max_depth: DEFAULT_RFP_MAX_DEPTH,
        rfp_mult_tt: DEFAULT_RFP_MULT_TT,
        rfp_mult_no_tt: DEFAULT_RFP_MULT_NO_TT,
        rfp_improving_mult: DEFAULT_RFP_IMPROVING_MULT,
        rfp_worsening_mult: DEFAULT_RFP_WORSENING_MULT,
        probcut_margin: DEFAULT_PROBCUT_MARGIN,
        probcut_improving: DEFAULT_PROBCUT_IMPROVING,
        probcut_min_depth: DEFAULT_PROBCUT_MIN_DEPTH,
        probcut_depth_sub: DEFAULT_PROBCUT_DEPTH_SUB,
        probcut_divisor: DEFAULT_PROBCUT_DIVISOR,
        low_depth_probcut_margin: DEFAULT_LOW_DEPTH_PROBCUT_MARGIN,
        iir_min_depth: DEFAULT_IIR_MIN_DEPTH,
        see_capture_linear: DEFAULT_SEE_CAPTURE_LINEAR,
        see_capture_hist_div: DEFAULT_SEE_CAPTURE_HIST_DIV,
        see_quiet_quad: DEFAULT_SEE_QUIET_QUAD,
        see_winning_threshold: DEFAULT_SEE_WINNING_THRESHOLD,
        sort_hash: DEFAULT_SORT_HASH,
        sort_winning_capture: DEFAULT_SORT_WINNING_CAPTURE,
        sort_killer1: DEFAULT_SORT_KILLER1,
        sort_killer2: DEFAULT_SORT_KILLER2,
        sort_countermove: DEFAULT_SORT_COUNTERMOVE,
        max_history: DEFAULT_MAX_HISTORY,
        history_bonus_base: DEFAULT_HISTORY_BONUS_BASE,
        history_bonus_sub: DEFAULT_HISTORY_BONUS_SUB,
        history_bonus_cap: DEFAULT_HISTORY_BONUS_CAP,
        pawn_history_bonus_scale: DEFAULT_PAWN_HISTORY_BONUS_SCALE,
        pawn_history_malus_scale: DEFAULT_PAWN_HISTORY_MALUS_SCALE,
        delta_margin: DEFAULT_DELTA_MARGIN,
    }
}

impl Default for SearchParams {
    fn default() -> (r: SearchParams)
        ensures
            r == default_params(),
    {
        SearchParams {
            razoring_linear: DEFAULT_RAZORING_LINEAR,
            razoring_quad: DEFAULT_RAZORING_QUAD,
            nmp_reduction: DEFAULT_NMP_REDUCTION,
            nmp_min_depth: DEFAULT_NMP_MIN_DEPTH,
            nmp_base: DEFAULT_NMP_BASE,
            nmp_depth_mult: DEFAULT_NMP_DEPTH_MULT,
            nmp_reduction_base: DEFAULT_NMP_REDUCTION_BASE,
            nmp_reduction_div: DEFAULT_NMP_REDUCTION_DIV,
            lmr_min_depth: DEFAULT_LMR_MIN_DEPTH,
            lmr_min_moves: DEFAULT_LMR_MIN_MOVES,
            lmr_divisor: DEFAULT_LMR_DIVISOR,
            lmr_history_thresh: DEFAULT_LMR_HISTORY_THRESH,
            lmr_cutoff_thresh: DEFAULT_LMR_CUTOFF_THRESH,
            lmr_tt_history_thresh: DEFAULT_LMR_TT_HISTORY_THRESH,
            hlp_max_depth: DEFAULT_HLP_MAX_DEPTH,
            hlp_min_moves: DEFAULT_HLP_MIN_MOVES,
            hlp_history_reduce: DEFAULT_HLP_HISTORY_REDUCE,
            hlp_history_leaf: DEFAULT_HLP_HISTORY_LEAF,
            lmp_base: DEFAULT_LMP_BASE,
            lmp_depth_mult: DEFAULT_LMP_DEPTH_MULT,
            aspiration_window: DEFAULT_ASPIRATION_WINDOW,
            aspiration_fail_mult: DEFAULT_ASPIRATION_FAIL_MULT,
            aspiration_max_window: DEFAULT_ASPIRATION_MAX_WINDOW,
            rfp_max_depth: DEFAULT_RFP_MAX_DEPTH,
            rfp_mult_tt: DEFAULT_RFP_MULT_TT,
            rfp_mult_no_tt: DEFAULT_RFP_MULT_NO_TT,
            rfp_improving_mult: DEFAULT_RFP_IMPROVING_MULT,
            rfp_worsening_mult: DEFAULT_RFP_WORSENING_MULT,
            probcut_margin: DEFAULT_PROBCUT_MARGIN,
            probcut_improving: DEFAULT_PROBCUT_IMPROVING,
            probcut_min_depth: DEFAULT_PROBCUT_MIN_DEPTH,
            probcut_depth_sub: DEFAULT_PROBCUT_DEPTH_SUB,
            probcut_divisor: DEFAULT_PROBCUT_DIVISOR,
            low_depth_probcut_margin: DEFAULT_LOW_DEPTH_PROBCUT_MARGIN,
            iir_min_depth: DEFAULT_IIR_MIN_DEPTH,
            see_capture_linear: DEFAULT_SEE_CAPTURE_LINEAR,
            see_capture_hist_div: DEFAULT_SEE_CAPTURE_HIST_DIV,
            see_quiet_quad: DEFAULT_SEE_QUIET_QUAD,
            see_winning_threshold: DEFAULT_SEE_WINNING_THRESHOLD,
            sort_hash: DEFAULT_SORT_HASH,
            sort_winning_capture: DEFAULT_SORT_WINNING_CAPTURE,
            sort_killer1: DEFAULT_SORT_KILLER1,
            sort_killer2: DEFAULT_SORT_KILLER2,
            sort_countermove: DEFAULT_SORT_COUNTERMOVE,
            max_history: DEFAULT_MAX_HISTORY,
            history_bonus_base: DEFAULT_HISTORY_BONUS_BASE,
            history_bonus_sub: DEFAULT_HISTORY_BONUS_SUB,
            history_bonus_cap: DEFAULT_HISTORY_BONUS_CAP,
            pawn_history_bonus_scale: DEFAULT_PAWN_HISTORY_BONUS_SCALE,
            pawn_history_malus_scale: DEFAULT_PAWN_HISTORY_MALUS_SCALE,
            delta_margin: DEFAULT_DELTA_MARGIN,
        }
    }
}

pub fn razoring_linear() -> (r: i32)
    ensures
        r == DEFAULT_RAZORING_LINEAR,
{
    DEFAULT_RAZORING_LINEAR
}

pub fn razoring_quad() -> (r: i32)
    ensures
        r == DEFAULT_RAZORING_QUAD,
{
    DEFAULT_RAZORING_QUAD
}

pub fn nmp_reduction() -> (r: usize)
    ensures
        r == DEFAULT_NMP_REDUCTION,
{
    DEFAULT_NMP_REDUCTION
}

pub fn nmp_min_depth() -> (r: usize)
    ensures
        r == DEFAULT_NMP_MIN_DEPTH,
{
    DEFAULT_NMP_MIN_DEPTH
}

pub fn nmp_base() -> (r: i32)
    ensures
        r == DEFAULT_NMP_BASE,
{
    DEFAULT_NMP_BASE
}

pub fn nmp_depth_mult() -> (r: i32)
    ensures
        r == DEFAULT_NMP_DEPTH_MULT,
{
    DEFAULT_NMP_DEPTH_MULT
}

pub fn nmp_reduction_base() -> (r: usize)
    ensures
        r == DEFAULT_NMP_REDUCTION_BASE,
{
    DEFAULT_NMP_REDUCTION_BASE
}

pub fn nmp_reduction_div() -> (r: usize)
    ensures
        r == DEFAULT_NMP_REDUCTION_DIV,
{
    DEFAULT_NMP_REDUCTION_DIV
}

pub fn lmr_min_depth() -> (r: usize)
    ensures
        r == DEFAULT_LMR_MIN_DEPTH,
{
    DEFAULT_LMR_MIN_DEPTH
}

pub fn lmr_min_moves() -> (r: usize)
    ensures
        r == DEFAULT_LMR_MIN_MOVES,
{
    DEFAULT_LMR_MIN_MOVES
}

pub fn lmr_divisor() -> (r: usize)
    ensures
        r == DEFAULT_LMR_DIVISOR,
{
    DEFAULT_LMR_DIVISOR
}

pub fn lmr_history_thresh() -> (r: i32)
    ensures
        r == DEFAULT_LMR_HISTORY_THRESH,
{
    DEFAULT_LMR_HISTORY_THRESH
}

pub fn lmr_cutoff_thresh() -> (r: u8)
    ensures
        r == DEFAULT_LMR_CUTOFF_THRESH,
{
    DEFAULT_LMR_CUTOFF_THRESH
}

pub fn lmr_tt_history_thresh() -> (r: i32)
    ensures
        r == DEFAULT_LMR_TT_HISTORY_THRESH,
{
    DEFAULT_LMR_TT_HISTORY_THRESH
}

pub fn hlp_max_depth() -> (r: usize)
    ensures
        r == DEFAULT_HLP_MAX_DEPTH,
{
    DEFAULT_HLP_MAX_DEPTH
}

pub fn hlp_min_moves() -> (r: usize)
    ensures
        r == DEFAULT_HLP_MIN_MOVES,
{
    DEFAULT_HLP_MIN_MOVES
}

pub fn hlp_history_reduce() -> (r: i32)
    ensures
        r == DEFAULT_HLP_HISTORY_REDUCE,
{
    DEFAULT_HLP_HISTORY_REDUCE
}

pub fn hlp_history_leaf() -> (r: i32)
    ensures
        r == DEFAULT_HLP_HISTORY_LEAF,
{
    DEFAULT_HLP_HISTORY_LEAF
}

pub fn lmp_base() -> (r: usize)
    ensures
        r == DEFAULT_LMP_BASE,
{
    DEFAULT_LMP_BASE
}

pub fn lmp_depth_mult() -> (r: usize)
    ensures
        r == DEFAULT_LMP_DEPTH_MULT,
{
    DEFAULT_LMP_DEPTH_MULT
}

pub fn aspiration_window() -> (r: i32)
    ensures
        r == DEFAULT_ASPIRATION_WINDOW,
{
    DEFAULT_ASPIRATION_WINDOW
}

pub fn aspiration_fail_mult() -> (r: i32)
    ensures
        r == DEFAULT_ASPIRATION_FAIL_MULT,
{
    DEFAULT_ASPIRATION_FAIL_MULT
}

pub fn aspiration_max_window() -> (r: i32)
    ensures
        r == DEFAULT_ASPIRATION_MAX_WINDOW,
{
    DEFAULT_ASPIRATION_MAX_WINDOW
}

pub fn rfp_max_depth() -> (r: usize)
    ensures
        r == DEFAULT_RFP_MAX_DEPTH,
{
    DEFAULT_RFP_MAX_DEPTH
}

pub fn rfp_mult_tt() -> (r: i32)
    ensures
        r == DEFAULT_RFP_MULT_TT,
{
    DEFAULT_RFP_MULT_TT
}

pub fn rfp_mult_no_tt() -> (r: i32)
    ensures
        r == DEFAULT_RFP_MULT_NO_TT,
{
    DEFAULT_RFP_MULT_NO_TT
}

pub fn rfp_improving_mult() -> (r: i32)
    ensures
        r == DEFAULT_RFP_IMPROVING_MULT,
{
    DEFAULT_RFP_IMPROVING_MULT
}

pub fn rfp_worsening_mult() -> (r: i32)
    ensures
        r == DEFAULT_RFP_WORSENING_MULT,
{
    DEFAULT_RFP_WORSENING_MULT
}

pub fn probcut_margin() -> (r: i32)
    ensures
        r == DEFAULT_PROBCUT_MARGIN,
{
    DEFAULT_PROBCUT_MARGIN
}

pub fn probcut_improving() -> (r: i32)
    ensures
        r == DEFAULT_PROBCUT_IMPROVING,
{
    DEFAULT_PROBCUT_IMPROVING
}

pub fn probcut_min_depth() -> (r: usize)
    ensures
        r == DEFAULT_PROBCUT_MIN_DEPTH,
{
    DEFAULT_PROBCUT_MIN_DEPTH
}

pub fn probcut_depth_sub() -> (r: usize)
    ensures
        r == DEFAULT_PROBCUT_DEPTH_SUB,
{
    DEFAULT_PROBCUT_DEPTH_SUB
}

pub fn probcut_divisor() -> (r: i32)
    ensures
        r == DEFAULT_PROBCUT_DIVISOR,
{
    DEFAULT_PROBCUT_DIVISOR
}

pub fn low_depth_probcut_margin() -> (r: i32)
    ensures
        r == DEFAULT_LOW_DEPTH_PROBCUT_MARGIN,
{
    DEFAULT_LOW_DEPTH_PROBCUT_MARGIN
}

pub fn iir_min_depth() -> (r: usize)
    ensures
        r == DEFAULT_IIR_MIN_DEPTH,
{
    DEFAULT_IIR_MIN_DEPTH
}

pub fn see_capture_linear() -> (r: i32)
    ensures
        r == DEFAULT_SEE_CAPTURE_LINEAR,
{
    DEFAULT_SEE_CAPTURE_LINEAR
}

pub fn see_capture_hist_div() -> (r: i32)
    ensures
        r == DEFAULT_SEE_CAPTURE_HIST_DIV,
{
    DEFAULT_SEE_CAPTURE_HIST_DIV
}

pub fn see_quiet_quad() -> (r: i32)
    ensures
        r == DEFAULT_SEE_QUIET_QUAD,
{
    DEFAULT_SEE_QUIET_QUAD
}

pub fn see_winning_threshold() -> (r: i32)
    ensures
        r == DEFAULT_SEE_WINNING_THRESHOLD,
{
    DEFAULT_SEE_WINNING_THRESHOLD
}

pub fn sort_hash() -> (r: i32)
    ensures
        r == DEFAULT_SORT_HASH,
{
    DEFAULT_SORT_HASH
}

pub fn sort_winning_capture() -> (r: i32)
    ensures
        r == DEFAULT_SORT_WINNING_CAPTURE,
{
    DEFAULT_SORT_WINNING_CAPTURE
}

pub fn sort_killer1() -> (r: i32)
    ensures
        r == DEFAULT_SORT_KILLER1,
{
    DEFAULT_SORT_KILLER1
}

pub fn sort_killer2() -> (r: i32)
    ensures
        r == DEFAULT_SORT_KILLER2,
{
    DEFAULT_SORT_KILLER2
}

pub fn sort_countermove() -> (r: i32)
    ensures
        r == DEFAULT_SORT_COUNTERMOVE,
{
    DEFAULT_SORT_COUNTERMOVE
}

pub fn max_history() -> (r: i32)
    ensures
        r == DEFAULT_MAX_HISTORY,
{
    DEFAULT_MAX_HISTORY
}

pub fn history_bonus_base() -> (r: i32)
    ensures
        r == DEFAULT_HISTORY_BONUS_BASE,
{
    DEFAULT_HISTORY_BONUS_BASE
}

pub fn history_bonus_sub() -> (r: i32)
    ensures
        r == DEFAULT_HISTORY_BONUS_SUB,
{
    DEFAULT_HISTORY_BONUS_SUB
}

pub fn history_bonus_cap() -> (r: i32)
    ensures
        r == DEFAULT_HISTORY_BONUS_CAP,
{
    DEFAULT_HISTORY_BONUS_CAP
}

pub fn pawn_history_bonus_scale() -> (r: i32)
    ensures
        r == DEFAULT_PAWN_HISTORY_BONUS_SCALE,
{
    DEFAULT_PAWN_HISTORY_BONUS_SCALE
}

pub fn pawn_history_malus_scale() -> (r: i32)
    ensures
        r == DEFAULT_PAWN_HISTORY_MALUS_SCALE,
{
    DEFAULT_PAWN_HISTORY_MALUS_SCALE
}

pub fn delta_margin() -> (r: i32)
    ensures
        r == DEFAULT_DELTA_MARGIN,
{
    DEFAULT_DELTA_MARGIN
}

/// The values that tools start from.
pub proof fn tools_start_from_these_values()
    ensures
        default_params().razoring_linear == 485,
        default_params().razoring_quad == 281,
        default_params().nmp_reduction == 3,
        default_params().nmp_min_depth == 3,
        default_params().nmp_base == 350,
        default_params().nmp_depth_mult == 18,
        default_params().nmp_reduction_base == 7,
        default_params().nmp_reduction_div == 3,
        default_params().lmr_min_depth == 3,
        default_params().lmr_min_moves == 4,
        default_params().lmr_divisor == 3,
        default_params().lmr_history_thresh == 2000,
        default_params().lmr_cutoff_thresh == 2,
        default_params().lmr_tt_history_thresh == -1000,
        default_params().hlp_max_depth == 3,
        default_params().hlp_min_moves == 4,
        default_params().hlp_history_reduce == 300,
        default_params().hlp_history_leaf == 0,
        default_params().lmp_base == 3,
        default_params().lmp_depth_mult == 1,
        default_params().aspiration_window == 60,
        default_params().aspiration_fail_mult == 4,
        default_params().aspiration_max_window == 1000,
        default_params().rfp_max_depth == 14,
        default_params().rfp_mult_tt == 76,
        default_params().rfp_mult_no_tt == 53,
        default_params().rfp_improving_mult == 2474,
        default_params().rfp_worsening_mult == 331,
        default_params().probcut_margin == 235,
        default_params().probcut_improving == 63,
        default_params().probcut_min_depth == 5,
        default_params().probcut_depth_sub == 4,
        default_params().probcut_divisor == 315,
        default_params().low_depth_probcut_margin == 800,
        default_params().iir_min_depth == 6,
        default_params().see_capture_linear == 106,
        default_params().see_capture_hist_div == 29,
        default_params().see_quiet_quad == 25,
        default_params().see_winning_threshold == 0,
        default_params().sort_hash == 6000000,
        default_params().sort_winning_capture == 1000000,
        default_params().sort_killer1 == 900000,
        default_params().sort_killer2 == 800000,
        default_params().sort_countermove == 600000,
        default_params().max_history == 16384,
        default_params().history_bonus_base == 300,
        default_params().history_bonus_sub == 250,
        default_params().history_bonus_cap == 1536,
        default_params().pawn_history_bonus_scale == 2,
        default_params().pawn_history_malus_scale == 1,
        default_params().delta_margin == 200,
{
}

} // verus!
