//! Counters of how often evaluation terms apply, for tuning their weights.
use vstd::prelude::*;

verus! {

#[derive(Clone, Copy, PartialEq, Eq, Structural, Debug)]
pub struct EvalFeatures {
    pub king_ring_missing_penalty: i32,
    pub king_open_ray_penalty: i32,
    pub king_enemy_slider_penalty: i32,
    pub dev_queen_back_rank_penalty: i32,
    pub dev_rook_back_rank_penalty: i32,
    pub dev_minor_back_rank_penalty: i32,
    pub rook_idle_penalty: i32,
    pub doubled_pawn_penalty: i32,
    pub bishop_pair_bonus: i32,
    pub queen_too_close_to_king_penalty: i32,
    pub queen_fork_zone_bonus: i32,
}

/// No term has applied yet.
pub open spec fn no_features() -> EvalFeatures {
    EvalFeatures {
        king_ring_missing_penalty: 0,
        king_open_ray_penalty: 0,
        king_enemy_slider_penalty: 0,
        dev_queen_back_rank_penalty: 0,
        dev_rook_back_rank_penalty: 0,
        dev_minor_back_rank_penalty: 0,
        rook_idle_penalty: 0,
        doubled_pawn_penalty: 0,
        bishop_pair_bonus: 0,
        queen_too_close_to_king_penalty: 0,
        queen_fork_zone_bonus: 0,
    }
}

/// A counter moved by `by`, around the end of its range if need be.
pub open spec fn bumped(count: i32, by: i32) -> i32 {
    count.wrapping_add(by)
}

/// The counters after a king without ring cover was seen.
pub open spec fn with_missing_ring(f: EvalFeatures) -> EvalFeatures {
    EvalFeatures { king_ring_missing_penalty: bumped(f.king_ring_missing_penalty, -1i32), ..f }
}

/// The counters after a bishop pair was seen; White's counts up, Black's down.
pub open spec fn with_bishop_pair(f: EvalFeatures, by: i32) -> EvalFeatures {
    EvalFeatures { bishop_pair_bonus: bumped(f.bishop_pair_bonus, by), ..f }
}

impl Default for EvalFeatures {
    fn default() -> (r: EvalFeatures)
        ensures
            r == no_features(),
    {
        EvalFeatures {
            king_ring_missing_penalty: 0,
            king_open_ray_penalty: 0,
            king_enemy_slider_penalty: 0,
            dev_queen_back_rank_penalty: 0,
            dev_rook_back_rank_penalty: 0,
            dev_minor_back_rank_penalty: 0,
            rook_idle_penalty: 0,
            doubled_pawn_penalty: 0,
            bishop_pair_bonus: 0,
            queen_too_close_to_king_penalty: 0,
            queen_fork_zone_bonus: 0,
        }
    }
}

impl EvalFeatures {
    pub(crate) fn bump_missing_ring(&mut self)
        ensures
            *final(self) == with_missing_ring(*old(self)),
    {
        self.king_ring_missing_penalty = self.king_ring_missing_penalty.wrapping_add(-1);
    }

    pub(crate) fn bump_bishop_pair(&mut self, by: i32)
        ensures
            *final(self) == with_bishop_pair(*old(self), by),
    {
        self.bishop_pair_bonus = self.bishop_pair_bonus.wrapping_add(by);
    }
}

/// Sets every counter back to zero.
pub fn reset_eval_features(features: &mut EvalFeatures)
    ensures
        *final(features) == no_features(),
{
    *features = EvalFeatures::default();
}

/// The counters as they stand.
pub fn snapshot_eval_features(features: &EvalFeatures) -> (r: EvalFeatures)
    ensures
        r == *features,
{
    *features
}

} // verus!
