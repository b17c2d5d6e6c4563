//! Static evaluation of a position.
pub mod accounting;
pub mod base;
pub mod buffers;
pub mod features;
pub mod king_safety;
pub mod lines;
pub mod metrics;
pub mod order;
pub mod pawn_cache;
pub mod pawn_comparisons;
pub mod pawn_symmetry;
pub mod pawns;
pub mod pieces;
pub mod structure;
pub mod surroundings;
pub mod tendencies;
pub mod tracing;
pub mod values;
pub mod variants;

pub use crate::evaluation::base::{
    calculate_initial_material, compute_mop_up_term, debug_evaluate, evaluate, evaluate_inner,
    evaluate_inner_traced, evaluate_pawn_structure, EndgameTerms, EvalContext,
};
pub use crate::evaluation::features::{
    reset_eval_features, snapshot_eval_features, EvalFeatures,
};
pub use crate::evaluation::king_safety::{evaluate_king_safety_traced, KingSafetyMetrics};
pub use crate::evaluation::lines::{is_clear_line_between, is_clear_line_between_fast};
pub use crate::evaluation::pawn_cache::{clear_pawn_cache, PawnCache};
pub use crate::evaluation::pawns::{count_pawns_on_file, evaluate_pawn_structure_traced};
pub use crate::evaluation::pieces::{evaluate_bishop, evaluate_queen, evaluate_rook};
pub use crate::evaluation::tracing::{ActiveTrace, EvaluationTracer, NoTrace};
pub use crate::evaluation::values::{
    get_centrality_weight, get_piece_phase, get_piece_value, MAX_PHASE,
};
