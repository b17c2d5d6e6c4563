//! Integer arithmetic shared by the evaluation and the search: division and
//! remainder that truncate toward zero, clamping, and sums over sequences.
use vstd::prelude::*;

verus! {

/// Division that truncates toward zero.
pub open spec fn tdiv(a: int, b: int) -> int {
    if b > 0 {
        if a >= 0 {
            a / b
        } else {
            -((-a) / b)
        }
    } else {
        if a >= 0 {
            -(a / -b)
        } else {
            (-a) / (-b)
        }
    }
}

/// The remainder that goes with [`tdiv`]; it has the sign of `a`.
pub open spec fn trem(a: int, b: int) -> int {
    if a >= 0 {
        a % b
    } else {
        -((-a) % b)
    }
}

pub open spec fn abs(a: int) -> int {
    if a < 0 {
        -a
    } else {
        a
    }
}

pub open spec fn max(a: int, b: int) -> int {
    if a >= b {
        a
    } else {
        b
    }
}

pub open spec fn min(a: int, b: int) -> int {
    if a <= b {
        a
    } else {
        b
    }
}

/// `a` brought into `lo..=hi`.
pub open spec fn clamp(a: int, lo: int, hi: int) -> int {
    if a < lo {
        lo
    } else if a > hi {
        hi
    } else {
        a
    }
}

/// The Chebyshev distance between two squares.
pub open spec fn cheb(x1: int, y1: int, x2: int, y2: int) -> int {
    max(abs(x1 - x2), abs(y1 - y2))
}

pub fn abs_i32(a: i32) -> (r: i32)
    requires
        a > i32::MIN,
    ensures
        r == abs(a as int),
{
    if a < 0 {
        -a
    } else {
        a
    }
}

pub fn abs_i64(a: i64) -> (r: i64)
    requires
        a > i64::MIN,
    ensures
        r == abs(a as int),
{
    if a < 0 {
        -a
    } else {
        a
    }
}

pub fn max_i32(a: i32, b: i32) -> (r: i32)
    ensures
        r == max(a as int, b as int),
{
    if a >= b {
        a
    } else {
        b
    }
}

pub fn min_i32(a: i32, b: i32) -> (r: i32)
    ensures
        r == min(a as int, b as int),
{
    if a <= b {
        a
    } else {
        b
    }
}

pub fn max_i64(a: i64, b: i64) -> (r: i64)
    ensures
        r == max(a as int, b as int),
{
    if a >= b {
        a
    } else {
        b
    }
}

pub fn min_i64(a: i64, b: i64) -> (r: i64)
    ensures
        r == min(a as int, b as int),
{
    if a <= b {
        a
    } else {
        b
    }
}

pub fn clamp_i32(a: i32, lo: i32, hi: i32) -> (r: i32)
    requires
        lo <= hi,
    ensures
        r == clamp(a as int, lo as int, hi as int),
{
    if a < lo {
        lo
    } else if a > hi {
        hi
    } else {
        a
    }
}

pub fn clamp_i64(a: i64, lo: i64, hi: i64) -> (r: i64)
    requires
        lo <= hi,
    ensures
        r == clamp(a as int, lo as int, hi as int),
{
    if a < lo {
        lo
    } else if a > hi {
        hi
    } else {
        a
    }
}

/// The Chebyshev distance between two squares whose coordinates differ by
/// less than the range of `i64`.
pub fn cheb_i64(x1: i64, y1: i64, x2: i64, y2: i64) -> (r: i64)
    requires
        i64::MIN < x1 - x2 <= i64::MAX,
        i64::MIN < y1 - y2 <= i64::MAX,
    ensures
        r == cheb(x1 as int, y1 as int, x2 as int, y2 as int),
        r >= 0,
{
    max_i64(abs_i64(x1 - x2), abs_i64(y1 - y2))
}

/// The sum of `f` over a sequence.
pub open spec fn sum_of<A>(s: Seq<A>, f: spec_fn(A) -> int) -> int
    decreases s.len(),
{
    if s.len() == 0 {
        0
    } else {
        sum_of(s.drop_last(), f) + f(s.last())
    }
}

/// How many elements of a sequence satisfy `f`.
pub open spec fn count_of<A>(s: Seq<A>, f: spec_fn(A) -> bool) -> nat
    decreases s.len(),
{
    if s.len() == 0 {
        0
    } else {
        count_of(s.drop_last(), f) + if f(s.last()) {
            1nat
        } else {
            0
        }
    }
}

/// Extending a prefix by one element adds that element's term.
pub proof fn lemma_sum_step<A>(s: Seq<A>, i: int, f: spec_fn(A) -> int)
    requires
        0 <= i < s.len(),
    ensures
        sum_of(s.take(i + 1), f) == sum_of(s.take(i), f) + f(s[i]),
{
    assert(s.take(i + 1).drop_last() =~= s.take(i));
}

/// A sum of terms that lie in `lo..=hi` lies in `len * lo..=len * hi`.
pub proof fn lemma_sum_bounds<A>(s: Seq<A>, f: spec_fn(A) -> int, lo: int, hi: int)
    requires
        forall|i: int| 0 <= i < s.len() ==> lo <= #[trigger] f(s[i]) <= hi,
    ensures
        s.len() * lo <= sum_of(s, f) <= s.len() * hi,
    decreases s.len(),
{
    if s.len() > 0 {
        let t = s.drop_last();
        assert forall|i: int| 0 <= i < t.len() implies lo <= #[trigger] f(t[i]) <= hi by {
            assert(t[i] == s[i]);
        }
        lemma_sum_bounds(t, f, lo, hi);
        assert(lo <= f(s[s.len() - 1]) <= hi);
        assert(s.len() * lo == t.len() * lo + lo) by (nonlinear_arith)
            requires
                s.len() == t.len() + 1,
        ;
        assert(s.len() * hi == t.len() * hi + hi) by (nonlinear_arith)
            requires
                s.len() == t.len() + 1,
        ;
    }
}

pub proof fn lemma_count_step<A>(s: Seq<A>, i: int, f: spec_fn(A) -> bool)
    requires
        0 <= i < s.len(),
    ensures
        count_of(s.take(i + 1), f) == count_of(s.take(i), f) + (if f(s[i]) {
            1nat
        } else {
            0
        }),
{
    assert(s.take(i + 1).drop_last() =~= s.take(i));
}

/// A count does not exceed the length.
pub proof fn lemma_count_bound<A>(s: Seq<A>, f: spec_fn(A) -> bool)
    ensures
        count_of(s, f) <= s.len(),
    decreases s.len(),
{
    if s.len() > 0 {
        lemma_count_bound(s.drop_last(), f);
    }
}

/// Elements that do not satisfy `f` add nothing to the count.
pub proof fn lemma_count_none<A>(s: Seq<A>, lo: int, hi: int, f: spec_fn(A) -> bool)
    requires
        0 <= lo <= hi <= s.len(),
        forall|i: int| lo <= i < hi ==> !(#[trigger] f(s[i])),
    ensures
        count_of(s.take(hi), f) == count_of(s.take(lo), f),
    decreases hi - lo,
{
    if lo < hi {
        lemma_count_step(s, hi - 1, f);
        lemma_count_none(s, lo, hi - 1, f);
    }
}

/// A prefix counts no more than the whole.
pub proof fn lemma_count_prefix<A>(s: Seq<A>, i: int, f: spec_fn(A) -> bool)
    requires
        0 <= i <= s.len(),
    ensures
        count_of(s.take(i), f) <= count_of(s, f),
    decreases s.len() - i,
{
    if i < s.len() {
        lemma_count_step(s, i, f);
        lemma_count_prefix(s, i + 1, f);
    } else {
        assert(s.take(i) =~= s);
    }
}

} // verus!
