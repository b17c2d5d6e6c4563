//! A two-way cache of pawn structure scores. A bucket keeps its two most
//! recently stored scores, the newer one in front.
use vstd::prelude::*;

verus! {

pub const PAWN_CACHE_SIZE: usize = 16384;

/// Pawn structure scores lie within this distance of zero.
pub const PAWN_SCORE_LIMIT: i32 = 0x400_0000;

#[derive(Clone, Copy)]
pub struct PawnCacheEntry {
    pub hash: u64,
    pub score: i32,
}

#[derive(Clone, Copy)]
pub struct PawnCacheBucket {
    pub first: PawnCacheEntry,
    pub second: PawnCacheEntry,
}

/// The contents of a bucket that nothing was stored in.
pub open spec fn empty_bucket() -> PawnCacheBucket {
    PawnCacheBucket {
        first: PawnCacheEntry { hash: u64::MAX, score: 0 },
        second: PawnCacheEntry { hash: u64::MAX, score: 0 },
    }
}

impl Default for PawnCacheBucket {
    fn default() -> (r: PawnCacheBucket)
        ensures
            r == empty_bucket(),
    {
        PawnCacheBucket {
            first: PawnCacheEntry { hash: u64::MAX, score: 0 },
            second: PawnCacheEntry { hash: u64::MAX, score: 0 },
        }
    }
}

pub struct PawnCache {
    pub buckets: Vec<PawnCacheBucket>,
}

/// The bucket that a hash falls into.
pub open spec fn bucket_of(hash: u64) -> int {
    hash as int % PAWN_CACHE_SIZE as int
}

/// The score that a cache holds for a hash.
pub open spec fn cached_score(c: Seq<PawnCacheBucket>, hash: u64) -> Option<i32> {
    let b = c[bucket_of(hash)];
    if b.first.hash == hash {
        Some(b.first.score)
    } else if b.second.hash == hash {
        Some(b.second.score)
    } else {
        None
    }
}

/// A cache after a score was stored: the score goes to the front of its
/// bucket, and what was in front goes to the back.
pub open spec fn with_score(c: Seq<PawnCacheBucket>, hash: u64, score: i32) -> Seq<
    PawnCacheBucket,
> {
    c.update(
        bucket_of(hash),
        PawnCacheBucket { first: PawnCacheEntry { hash, score }, second: c[bucket_of(hash)].first },
    )
}

impl PawnCache {
    pub open spec fn view(&self) -> Seq<PawnCacheBucket> {
        self.buckets@
    }

    pub open spec fn wf(&self) -> bool {
        &&& self@.len() == PAWN_CACHE_SIZE
        &&& forall|i: int|
            0 <= i < self@.len() ==> {
                &&& -PAWN_SCORE_LIMIT <= (#[trigger] self@[i]).first.score <= PAWN_SCORE_LIMIT
                &&& -PAWN_SCORE_LIMIT <= self@[i].second.score <= PAWN_SCORE_LIMIT
            }
    }

    pub fn new() -> (r: PawnCache)
        ensures
            r.wf(),
            r@ == Seq::new(PAWN_CACHE_SIZE as nat, |i: int| empty_bucket()),
    {
        let r = PawnCache { buckets: vec![PawnCacheBucket::default();PAWN_CACHE_SIZE] };
        assert(r@ =~= Seq::new(PAWN_CACHE_SIZE as nat, |i: int| empty_bucket()));
        r
    }

    pub fn probe(&self, hash: u64) -> (r: Option<i32>)
        requires
            self.wf(),
        ensures
            r == cached_score(self@, hash),
            r matches Some(v) ==> -PAWN_SCORE_LIMIT <= v <= PAWN_SCORE_LIMIT,
    {
        let bucket = self.buckets[(hash % 16384) as usize];
        if bucket.first.hash == hash {
            Some(bucket.first.score)
        } else if bucket.second.hash == hash {
            Some(bucket.second.score)
        } else {
            None
        }
    }

    pub fn store(&mut self, hash: u64, score: i32)
        requires
            old(self).wf(),
            -PAWN_SCORE_LIMIT <= score <= PAWN_SCORE_LIMIT,
        ensures
            final(self).wf(),
            final(self)@ == with_score(old(self)@, hash, score),
    {
        let idx: usize = (hash % 16384) as usize;
        let front = self.buckets[idx].first;
        self.buckets[idx] = PawnCacheBucket {
            first: PawnCacheEntry { hash, score },
            second: front,
        };
    }
}

/// Forgets every stored score.
pub fn clear_pawn_cache(cache: &mut PawnCache)
    ensures
        final(cache).wf(),
        final(cache)@ == Seq::new(PAWN_CACHE_SIZE as nat, |i: int| empty_bucket()),
{
    *cache = PawnCache::new();
}

/// A score that was just stored is found again.
pub proof fn stored_score_is_found(c: Seq<PawnCacheBucket>, hash: u64, score: i32)
    requires
        c.len() == PAWN_CACHE_SIZE,
    ensures
        cached_score(with_score(c, hash, score), hash) == Some(score),
{
}

/// A score outlives one later store, even one into its own bucket.
pub proof fn stored_score_survives_one_store(
    c: Seq<PawnCacheBucket>,
    hash: u64,
    score: i32,
    later: u64,
    later_score: i32,
)
    requires
        c.len() == PAWN_CACHE_SIZE,
        later != hash,
    ensures
        cached_score(with_score(with_score(c, hash, score), later, later_score), hash) == Some(
            score,
        ),
{
}

/// Storing a score leaves the scores of other buckets as they were.
pub proof fn store_keeps_other_buckets(c: Seq<PawnCacheBucket>, hash: u64, score: i32, other: u64)
    requires
        c.len() == PAWN_CACHE_SIZE,
        bucket_of(other) != bucket_of(hash),
    ensures
        cached_score(with_score(c, hash, score), other) == cached_score(c, other),
{
}

/// A cleared cache holds no score, for any hash but the one that marks an
/// empty entry.
pub proof fn cleared_cache_holds_nothing(hash: u64)
    requires
        hash != u64::MAX,
    ensures
        cached_score(Seq::new(PAWN_CACHE_SIZE as nat, |i: int| empty_bucket()), hash) == None::<
            i32,
        >,
{
}

} // verus!
