//! What goes into and comes out of a transposition table.
use crate::moves::Move;
use vstd::prelude::*;

verus! {

/// How a stored score relates to the true one.
#[derive(Clone, Copy, PartialEq, Eq, Structural, Debug)]
pub enum TTFlag {
    NoBound,
    UpperBound,
    LowerBound,
    Exact,
}

impl TTFlag {
    /// The true score is at least the stored one.
    pub open spec fn lower(self) -> bool {
        self is LowerBound || self is Exact
    }

    /// The true score is at most the stored one.
    pub open spec fn upper(self) -> bool {
        self is UpperBound || self is Exact
    }

    pub fn is_lower(self) -> (r: bool)
        ensures
            r == self.lower(),
    {
        matches!(self, TTFlag::LowerBound | TTFlag::Exact)
    }

    pub fn is_upper(self) -> (r: bool)
        ensures
            r == self.upper(),
    {
        matches!(self, TTFlag::UpperBound | TTFlag::Exact)
    }
}

#[derive(Clone, Copy, PartialEq, Eq, Structural, Debug)]
pub struct TTProbeParams {
    pub hash: u64,
    pub alpha: i32,
    pub beta: i32,
    pub depth: usize,
    pub ply: usize,
    pub rule50_count: u32,
    pub rule_limit: i32,
}

#[derive(Clone, Copy, PartialEq, Eq, Structural, Debug)]
pub struct TTProbeResult {
    /// The score to cut off with, where the entry allows it.
    pub cutoff_score: i32,
    /// The stored score, or one above infinity where there is none.
    pub tt_score: i32,
    /// The stored static evaluation, or one above infinity where there is none.
    pub eval: i32,
    pub depth: u8,
    pub flag: TTFlag,
    pub is_pv: bool,
    pub best_move: Option<Move>,
}

#[derive(Clone, Copy, PartialEq, Eq, Structural, Debug)]
pub struct TTStoreParams {
    pub hash: u64,
    pub depth: usize,
    pub flag: TTFlag,
    pub score: i32,
    pub static_eval: i32,
    pub is_pv: bool,
    pub best_move: Option<Move>,
    pub ply: usize,
}

} // verus!
