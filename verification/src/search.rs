//! Alpha-beta search: its scores, tables, decisions and drivers.
use crate::arith::{abs, abs_i32};
use crate::moves::Move;
use std::marker::PhantomData;
use vstd::prelude::*;

mod access;
pub mod bookkeeping;
pub mod conduct;
pub mod decisions;
pub mod deepening;
pub mod entry;
pub mod handicap;
pub mod host;
pub mod judgement;
pub mod learning;
pub mod limited;
pub mod memory;
pub mod multipv;
pub mod node;
pub mod ordering;
pub mod outcomes;
pub mod pacing;
pub mod params;
pub mod pv;
pub mod quiescence;
pub mod reporting;
pub mod results;
pub mod root;
pub mod searcher;
pub mod sorting;
pub mod stacks;
pub mod steps;
pub mod text;
pub mod tt_defs;
pub mod verdicts;
pub mod voting;

pub use crate::search::entry::{
    get_best_move, get_best_move_limited, get_best_move_parallel, get_best_moves_multipv,
    get_current_tt_stats, negamax_node_count_for_depth, reset_search_state, set_global_params,
    SearchState,
};
pub use crate::search::host::{probe_tt_with_shared, store_tt_with_shared, SearchHost};
pub use crate::search::params::SearchParams;
pub use crate::search::searcher::{ClockReading, Searcher, SearcherHot};
pub use crate::search::tt_defs::{TTFlag, TTProbeParams, TTProbeResult, TTStoreParams};

verus! {

pub const MAX_PLY: usize = 64;

pub const INFINITY: i32 = 1_000_000;

pub const MATE_VALUE: i32 = 900_000;

pub const MATE_SCORE: i32 = 800_000;

/// Three seconds for a move, where the caller says nothing else.
pub const THINK_TIME_MS: u128 = 3000;

/// The highest skill level that players can choose.
pub const MAX_SITE_SKILL: u32 = 3;

/// The number of lines that strength limiting chooses from.
pub const MAX_PV_COUNT: usize = 4;

pub const VALUE_DRAW: i32 = 0;

/// Entries of a correction table for one color; a power of two.
pub const CORRHIST_SIZE: usize = 16384;

pub const CORRHIST_MASK: u64 = 16383;

pub const LASTMOVE_CORRHIST_SIZE: usize = 4096;

pub const LASTMOVE_CORRHIST_MASK: usize = 4095;

pub const CORRHIST_GRAIN: i32 = 256;

pub const CORRHIST_LIMIT: i32 = 32768;

pub const CORRHIST_WEIGHT_SCALE: i32 = 256;

/// The plies next to the root that have a history of their own.
pub const LOW_PLY_HISTORY_SIZE: usize = 4;

pub const LOW_PLY_HISTORY_ENTRIES: usize = 4096;

pub const LOW_PLY_HISTORY_MASK: usize = 4095;

pub const PAWN_HISTORY_SIZE: usize = 8192;

pub const PAWN_HISTORY_MASK: u64 = 8191;

/// The mark of a score or an evaluation that is not there.
pub const NO_VALUE: i32 = 1_000_001;

pub struct ProbeContext {
    pub hash: u64,
    pub alpha: i32,
    pub beta: i32,
    pub depth: usize,
    pub ply: usize,
    pub rule50_count: u32,
    pub rule_limit: i32,
}

pub struct StoreContext {
    pub hash: u64,
    pub depth: usize,
    pub flag: TTFlag,
    pub score: i32,
    pub static_eval: i32,
    pub is_pv: bool,
    pub best_move: Option<Move>,
    pub ply: usize,
}

/// What a node is searched with.
#[derive(Clone, Copy)]
pub struct NegamaxContext {
    pub depth: usize,
    pub ply: usize,
    pub alpha: i32,
    pub beta: i32,
    pub allow_null: bool,
    pub node_type: NodeType,
    pub was_null_move: bool,
    pub excluded_move: Option<Move>,
}

/// Which correction tables a search uses.
#[derive(Clone, Copy, PartialEq, Eq, Structural, Debug)]
pub enum CorrHistMode {
    /// Pawns, material and minor pieces.
    PawnBased,
    /// Pieces, minor pieces, material, last move and continuation.
    NonPawnBased,
}

/// What is expected of a node.
#[derive(Clone, Copy, PartialEq, Eq, Structural, Debug)]
pub enum NodeType {
    /// On the principal variation; searched with a full window.
    PV,
    /// Expected to fail high.
    Cut,
    /// Expected to fail low.
    All,
}

/// A fast deterministic generator for search noise and strength limiting.
#[derive(Clone, Debug)]
pub struct Prng {
    pub state: u64,
}

/// The state that follows a state.
pub open spec fn prng_step(s: u64) -> u64 {
    let a = s ^ (s << 13);
    let b = a ^ (a >> 7);
    b ^ (b << 17)
}

/// The state with which a seed starts; zero is replaced, since it would stay
/// zero.
pub open spec fn prng_start(seed: u64) -> u64 {
    let s = if seed == 0 {
        0x123456789ABCDEF0
    } else {
        seed
    };
    prng_step(prng_step(prng_step(prng_step(s))))
}

impl Prng {
    pub fn new(seed: u64) -> (r: Prng)
        ensures
            r.state == prng_start(seed),
    {
        let mut p = Prng {
            state: if seed == 0 {
                0x123456789ABCDEF0
            } else {
                seed
            },
        };
        p.next_u64();
        p.next_u64();
        p.next_u64();
        p.next_u64();
        p
    }

    pub fn next_u64(&mut self) -> (r: u64)
        ensures
            r == prng_step(old(self).state),
            final(self).state == r,
    {
        let a: u64 = self.state ^ (self.state << 13);
        let b: u64 = a ^ (a >> 7);
        self.state = b ^ (b << 17);
        self.state
    }
}

/// A state other than zero is never followed by zero, so the generator does
/// not get stuck.
pub proof fn prng_never_gets_stuck(s: u64)
    requires
        s != 0,
    ensures
        prng_step(s) != 0,
{
    assert(s != 0 ==> ({
        let a = s ^ (s << 13);
        let b = a ^ (a >> 7);
        (b ^ (b << 17)) != 0
    })) by (bit_vector);
}

/// A seed and a position mixed into one number.
pub open spec fn noise_bits(seed: u64, hash: u64) -> u64 {
    let a = seed.wrapping_add(hash);
    let b = (a ^ (a >> 30)).wrapping_mul(0xbf58476d1ce4e5b9);
    let c = (b ^ (b >> 27)).wrapping_mul(0x94d049bb133111eb);
    c ^ (c >> 31)
}

/// The noise for a position, at least `-amp` and below `amp`.
pub open spec fn noise(seed: u64, hash: u64, amp: int) -> int {
    if amp == 0 {
        0
    } else {
        noise_bits(seed, hash) as int % (2 * amp) - amp
    }
}

/// Deterministic noise for a position and a seed.
pub fn get_noise(seed: u64, hash: u64, amp: i32) -> (r: i32)
    requires
        0 <= amp <= 0x4000_0000,
    ensures
        r == noise(seed, hash, amp as int),
        -amp <= r <= amp,
{
    if amp == 0 {
        return 0;
    }
    let a: u64 = seed.wrapping_add(hash);
    let b: u64 = (a ^ (a >> 30)).wrapping_mul(0xbf58476d1ce4e5b9);
    let c: u64 = (b ^ (b >> 27)).wrapping_mul(0x94d049bb133111eb);
    let x: u64 = c ^ (c >> 31);
    (x % (2 * amp as u64)) as i32 - amp
}

/// The score of giving mate at `ply`.
pub fn mate_in(ply: usize) -> (r: i32)
    requires
        ply <= i32::MAX,
    ensures
        r == MATE_VALUE - ply,
{
    MATE_VALUE - ply as i32
}

/// The score of being mated at `ply`.
pub fn mated_in(ply: usize) -> (r: i32)
    requires
        ply <= i32::MAX,
    ensures
        r == -MATE_VALUE + ply,
{
    -MATE_VALUE + ply as i32
}

pub open spec fn winning(value: int) -> bool {
    value > MATE_SCORE
}

pub open spec fn losing(value: int) -> bool {
    value < -MATE_SCORE
}

/// A proven win or loss.
pub open spec fn decisive(value: int) -> bool {
    abs(value) > MATE_SCORE
}

pub fn is_win(value: i32) -> (r: bool)
    ensures
        r == winning(value as int),
{
    value > MATE_SCORE
}

pub fn is_loss(value: i32) -> (r: bool)
    ensures
        r == losing(value as int),
{
    value < -MATE_SCORE
}

pub fn is_decisive(value: i32) -> (r: bool)
    requires
        value > i32::MIN,
    ensures
        r == decisive(value as int),
{
    abs_i32(value) > MATE_SCORE
}

/// Of two mates the nearer one scores higher for the side that gives it, and
/// lower for the side that suffers it; both are decisive.
pub proof fn nearer_mates_weigh_more(near: int, far: int)
    requires
        0 <= near < far <= MAX_PLY,
    ensures
        MATE_VALUE - near > MATE_VALUE - far,
        -MATE_VALUE + near < -MATE_VALUE + far,
        winning(MATE_VALUE - far),
        losing(-MATE_VALUE + far),
{
}

/// The score of a draw, which wavers by one with the node count.
pub open spec fn draw_value(nodes: u64) -> int {
    if nodes % 4 >= 2 {
        1
    } else {
        -1
    }
}

pub fn value_draw(nodes: u64) -> (r: i32)
    ensures
        r == draw_value(nodes),
{
    assert((nodes & 2) == (if nodes % 4 >= 2 {
        2u64
    } else {
        0u64
    })) by (bit_vector);
    -1 + ((nodes & 0x2) as i32)
}

/// Stands for a table of a given size where none is kept.
pub struct TranspositionTable;

impl TranspositionTable {
    pub fn new(_size: usize) -> (r: TranspositionTable)
        ensures
            r == TranspositionTable,
    {
        TranspositionTable
    }
}

/// The table that threads share. A search on one thread has none: nothing is
/// found in it, and storing has no effect.
pub enum TranspositionTableRef<'a> {
    _Phantom(PhantomData<&'a ()>),
}

impl<'a> TranspositionTableRef<'a> {
    pub fn probe(&self, _params: &TTProbeParams) -> (r: Option<TTProbeResult>)
        ensures
            r is None,
    {
        None
    }

    pub fn probe_move(&self, _hash: u64) -> (r: Option<Move>)
        ensures
            r is None,
    {
        None
    }

    pub fn store(&self, _params: &TTStoreParams) {
    }

    pub fn capacity(&self) -> (r: usize)
        ensures
            r == 0,
    {
        0
    }

    pub fn used_entries(&self) -> (r: usize)
        ensures
            r == 0,
    {
        0
    }

    pub fn fill_permille(&self) -> (r: u32)
        ensures
            r == 0,
    {
        0
    }

    pub fn prefetch_entry(&self, _hash: u64) {
    }

    pub fn increment_age(&self) {
    }

    pub fn clear(&self) {
    }
}

/// What a search did, and how full the transposition table is.
#[derive(Clone, Copy, PartialEq, Eq, Structural, Debug)]
pub struct SearchStats {
    pub nodes: u64,
    pub tt_capacity: usize,
    pub tt_used: usize,
    pub tt_fill_permille: u32,
}

/// A principal variation with its score and depth.
#[derive(Clone, Debug)]
pub struct PVLine {
    pub mv: Move,
    pub score: i32,
    pub depth: usize,
    pub pv: Vec<Move>,
}

/// The best lines of a position, best first.
#[derive(Clone, Debug)]
pub struct MultiPVResult {
    pub lines: Vec<PVLine>,
    pub stats: SearchStats,
}

/// What one thread found.
#[derive(Clone, Copy, PartialEq, Eq, Structural, Debug)]
pub struct ThreadResult {
    pub best_move: Move,
    /// From the point of view of the side to move.
    pub score: i32,
    pub completed_depth: usize,
    pub pv_length: usize,
    pub nodes: u64,
    pub thread_id: usize,
}

} // verus!
