//! `TimedStore`: the per-container history of stats samples.
//!
//! Samples stay in timestamp order; a push evicts what has grown older than
//! the store's maximum age (keeping at least the newest), and a window query
//! trims from the old side, so the most recent samples win and come back
//! oldest first.

use std::collections::VecDeque;
use std::sync::Arc;

use vstd::prelude::*;

use crate::model::{ContainerStats, GoTime, Span, CHRONO_MIN_SECS};

verus! {

broadcast use vstd::std_specs::vecdeque::group_vec_dequeue_axioms;

/// The timestamp of sample `i`, in nanoseconds since the epoch.
pub open spec fn stamp(s: Seq<Arc<ContainerStats>>, i: int) -> int {
    s[i].timestamp.ns()
}

/// Samples in non-decreasing timestamp order.
pub open spec fn in_time_order(s: Seq<Arc<ContainerStats>>) -> bool {
    forall|i: int, j: int| 0 <= i <= j < s.len() ==> stamp(s, i) <= stamp(s, j)
}

/// Every timestamp is one a UTC date-time can hold.
pub open spec fn valid_stamps(s: Seq<Arc<ContainerStats>>) -> bool {
    forall|i: int| 0 <= i < s.len() ==> (#[trigger] s[i]).timestamp.valid()
}

/// A stamp lies before the cut at `t` (or on it, when `inclusive`).
pub open spec fn before_cut(x: int, t: int, inclusive: bool) -> bool {
    if inclusive {
        x <= t
    } else {
        x < t
    }
}

/// `k` splits `s` into the samples before the cut at `t` and those after it.
pub open spec fn splits_at(s: Seq<Arc<ContainerStats>>, t: int, inclusive: bool, k: int) -> bool {
    &&& 0 <= k <= s.len()
    &&& forall|i: int| 0 <= i < k ==> before_cut(#[trigger] stamp(s, i), t, inclusive)
    &&& forall|i: int| k <= i < s.len() ==> !before_cut(#[trigger] stamp(s, i), t, inclusive)
}

/// Where the cut at `t` falls in time-ordered samples: how many lie before it.
pub open spec fn split_index(s: Seq<Arc<ContainerStats>>, t: int, inclusive: bool) -> int {
    choose|k: int| splits_at(s, t, inclusive, k)
}

/// The samples after inserting `x` behind every sample stamped no later than it.
pub open spec fn inserted(s: Seq<Arc<ContainerStats>>, x: Arc<ContainerStats>) -> Seq<
    Arc<ContainerStats>,
> {
    s.insert(split_index(s, x.timestamp.ns(), true), x)
}

/// The largest span, in whole seconds, that a chrono `TimeDelta` holds.
pub const MAX_DELTA_SECS: u64 = 9223372036854775;

/// The eviction age in nanoseconds: the span itself, or nothing when it is
/// longer than a `TimeDelta` holds (`i64::MAX` milliseconds).
pub open spec fn age_limit_ns(d: Span) -> int {
    if d.secs > MAX_DELTA_SECS || (d.secs == MAX_DELTA_SECS && d.nanos > 807_000_000) {
        0
    } else {
        d.secs * 1_000_000_000 + d.nanos
    }
}

/// Drops the samples stamped before `cutoff`, but always keeps the newest.
pub open spec fn evicted(s: Seq<Arc<ContainerStats>>, cutoff: int) -> Seq<Arc<ContainerStats>> {
    let k = split_index(s, cutoff, false);
    if k < s.len() {
        s.subrange(k, s.len() as int)
    } else {
        s.subrange(s.len() - 1, s.len() as int)
    }
}

/// The eviction cutoff after `x` joined `s`: the newest stamp less the age limit.
pub open spec fn push_cutoff(s: Seq<Arc<ContainerStats>>, x: Arc<ContainerStats>, max_age: Span) -> int {
    let t = inserted(s, x);
    stamp(t, t.len() - 1) - age_limit_ns(max_age)
}

/// The samples after pushing `x`.
pub open spec fn pushed(s: Seq<Arc<ContainerStats>>, x: Arc<ContainerStats>, max_age: Span) -> Seq<
    Arc<ContainerStats>,
> {
    evicted(inserted(s, x), push_cutoff(s, x, max_age))
}

/// The samples stamped in `[start, end]` (a zero bound leaves that side open),
/// at most the `max` most recent of them when `max` is not negative.
pub open spec fn window(s: Seq<Arc<ContainerStats>>, start: GoTime, end: GoTime, max: i64) -> Seq<
    Arc<ContainerStats>,
> {
    let lo = if start.spec_is_zero() {
        0
    } else {
        split_index(s, start.ns(), false)
    };
    let hi = if end.spec_is_zero() {
        s.len() as int
    } else {
        split_index(s, end.ns(), true)
    };
    if s.len() == 0 || lo >= hi {
        Seq::empty()
    } else if max >= 0 && hi - lo > max {
        s.subrange(hi - max, hi)
    } else {
        s.subrange(lo, hi)
    }
}

/// Two cuts of the same samples at the same point are the same cut.
pub proof fn lemma_split_unique(s: Seq<Arc<ContainerStats>>, t: int, inclusive: bool, k1: int, k2: int)
    requires
        splits_at(s, t, inclusive, k1),
        splits_at(s, t, inclusive, k2),
    ensures
        k1 == k2,
{
    if k1 < k2 {
        assert(before_cut(stamp(s, k1), t, inclusive));
        assert(!before_cut(stamp(s, k1), t, inclusive));
    } else if k2 < k1 {
        assert(before_cut(stamp(s, k2), t, inclusive));
        assert(!before_cut(stamp(s, k2), t, inclusive));
    }
}

/// Time-ordered samples have a cut at every point.
pub proof fn lemma_split_exists(s: Seq<Arc<ContainerStats>>, t: int, inclusive: bool)
    requires
        in_time_order(s),
    ensures
        splits_at(s, t, inclusive, split_index(s, t, inclusive)),
    decreases s.len(),
{
    if s.len() == 0 {
        assert(splits_at(s, t, inclusive, 0));
    } else {
        let p = s.drop_last();
        assert(in_time_order(p)) by {
            assert forall|i: int, j: int| 0 <= i <= j < p.len() implies stamp(p, i) <= stamp(p, j) by {
                assert(stamp(p, i) == stamp(s, i));
                assert(stamp(p, j) == stamp(s, j));
            }
        }
        lemma_split_exists(p, t, inclusive);
        let k = split_index(p, t, inclusive);
        let n = s.len() - 1;
        assert forall|i: int| 0 <= i < n implies stamp(p, i) == stamp(s, i) by {}
        if k < n {
            assert(stamp(s, k) <= stamp(s, n));
            assert(!before_cut(stamp(p, k), t, inclusive));
            assert(splits_at(s, t, inclusive, k)) by {
                assert forall|i: int| 0 <= i < k implies before_cut(#[trigger] stamp(s, i), t, inclusive) by {
                    assert(stamp(p, i) == stamp(s, i));
                }
                assert forall|i: int| k <= i < s.len() implies !before_cut(#[trigger] stamp(s, i), t, inclusive) by {
                    if i < n {
                        assert(stamp(p, i) == stamp(s, i));
                    } else {
                        assert(stamp(s, k) <= stamp(s, i));
                    }
                }
            }
        } else if before_cut(stamp(s, n), t, inclusive) {
            assert(splits_at(s, t, inclusive, s.len() as int)) by {
                assert forall|i: int| 0 <= i < s.len() implies before_cut(#[trigger] stamp(s, i), t, inclusive) by {
                    if i < n {
                        assert(stamp(p, i) == stamp(s, i));
                    }
                }
            }
        } else {
            assert(splits_at(s, t, inclusive, n)) by {
                assert forall|i: int| 0 <= i < n implies before_cut(#[trigger] stamp(s, i), t, inclusive) by {
                    assert(stamp(p, i) == stamp(s, i));
                }
            }
        }
    }
}

/// The cut of time-ordered samples at `t` is the one `k` that splits them there.
pub proof fn lemma_split_index(s: Seq<Arc<ContainerStats>>, t: int, inclusive: bool, k: int)
    requires
        splits_at(s, t, inclusive, k),
    ensures
        split_index(s, t, inclusive) == k,
{
    lemma_split_unique(s, t, inclusive, k, split_index(s, t, inclusive));
}

/// The eviction age of `d` in nanoseconds.
fn age_limit(d: Span) -> (n: i128)
    ensures
        n == age_limit_ns(d),
{
    if d.secs > MAX_DELTA_SECS || (d.secs == MAX_DELTA_SECS && d.nanos > 807_000_000) {
        0
    } else {
        d.secs as i128 * 1_000_000_000 + d.nanos as i128
    }
}

/// Inserting at the cut keeps time order and valid stamps.
proof fn lemma_inserted_order(s: Seq<Arc<ContainerStats>>, x: Arc<ContainerStats>)
    requires
        in_time_order(s),
        valid_stamps(s),
        x.timestamp.valid(),
    ensures
        in_time_order(inserted(s, x)),
        valid_stamps(inserted(s, x)),
        inserted(s, x).len() == s.len() + 1,
{
    let t = x.timestamp.ns();
    lemma_split_exists(s, t, true);
    let k = split_index(s, t, true);
    let r = inserted(s, x);
    assert forall|i: int| 0 <= i < r.len() implies #[trigger] stamp(r, i) == (if i < k {
        stamp(s, i)
    } else if i == k {
        t
    } else {
        stamp(s, i - 1)
    }) by {}
    assert forall|i: int, j: int| 0 <= i <= j < r.len() implies stamp(r, i) <= stamp(r, j) by {
        if i < k && j < k {
        } else if i < k && j == k {
            assert(before_cut(stamp(s, i), t, true));
        } else if i < k {
            assert(stamp(s, i) <= stamp(s, j - 1));
        } else if i == k && j > k {
            assert(!before_cut(stamp(s, j - 1), t, true));
        } else if i > k {
            assert(stamp(s, i - 1) <= stamp(s, j - 1));
        }
    }
    assert forall|i: int| 0 <= i < r.len() implies (#[trigger] r[i]).timestamp.valid() by {
        if i < k {
            assert(r[i] == s[i]);
        } else if i > k {
            assert(r[i] == s[i - 1]);
        }
    }
}

/// A stamp within `[start, end]`, a zero bound leaving its side open.
pub open spec fn in_bounds(x: int, start: GoTime, end: GoTime) -> bool {
    &&& (start.spec_is_zero() || start.ns() <= x)
    &&& (end.spec_is_zero() || x <= end.ns())
}

/// Where the in-bound samples begin.
pub open spec fn window_start(s: Seq<Arc<ContainerStats>>, start: GoTime) -> int {
    if start.spec_is_zero() {
        0
    } else {
        split_index(s, start.ns(), false)
    }
}

/// Pushing keeps the samples in time order, leaves at least one and adds at
/// most one; what stays is the newest part of the samples with `x` among
/// them, everything dropped was stamped before the cutoff, and everything
/// kept is at or after it unless only one sample is left.
pub proof fn lemma_push_evicts_only_stale(s: Seq<Arc<ContainerStats>>, x: Arc<ContainerStats>, max_age: Span)
    requires
        in_time_order(s),
        valid_stamps(s),
        x.timestamp.valid(),
    ensures
        in_time_order(pushed(s, x, max_age)),
        valid_stamps(pushed(s, x, max_age)),
        1 <= pushed(s, x, max_age).len() <= s.len() + 1,
        pushed(s, x, max_age) == inserted(s, x).subrange(
            inserted(s, x).len() - pushed(s, x, max_age).len(),
            inserted(s, x).len() as int,
        ),
        forall|i: int|
            0 <= i < inserted(s, x).len() - pushed(s, x, max_age).len() ==> #[trigger] stamp(
                inserted(s, x),
                i,
            ) < push_cutoff(s, x, max_age),
        pushed(s, x, max_age).len() == 1 || forall|i: int|
            0 <= i < pushed(s, x, max_age).len() ==> #[trigger] stamp(pushed(s, x, max_age), i)
                >= push_cutoff(s, x, max_age),
{
    lemma_inserted_order(s, x);
    let t = inserted(s, x);
    let c = push_cutoff(s, x, max_age);
    let p = pushed(s, x, max_age);
    lemma_split_exists(t, c, false);
    let k = split_index(t, c, false);
    let d = if k < t.len() {
        k
    } else {
        t.len() - 1
    };
    assert(p == t.subrange(d, t.len() as int));
    assert forall|i: int| 0 <= i < p.len() implies #[trigger] stamp(p, i) == stamp(t, i + d) by {}
    assert forall|i: int, j: int| 0 <= i <= j < p.len() implies stamp(p, i) <= stamp(p, j) by {
        assert(stamp(t, i + d) <= stamp(t, j + d));
    }
    assert forall|i: int| 0 <= i < p.len() implies (#[trigger] p[i]).timestamp.valid() by {
        assert(p[i] == t[i + d]);
    }
    assert forall|i: int| 0 <= i < d implies #[trigger] stamp(t, i) < c by {
        assert(before_cut(stamp(t, i), c, false));
    }
    if p.len() != 1 {
        assert forall|i: int| 0 <= i < p.len() implies #[trigger] stamp(p, i) >= c by {
            assert(!before_cut(stamp(t, i + d), c, false));
        }
    }
}

/// A sample stamped no earlier than the newest one becomes the latest.
pub proof fn lemma_push_newest_is_latest(s: Seq<Arc<ContainerStats>>, x: Arc<ContainerStats>, max_age: Span)
    requires
        in_time_order(s),
        valid_stamps(s),
        x.timestamp.valid(),
        s.len() == 0 || stamp(s, s.len() - 1) <= x.timestamp.ns(),
    ensures
        pushed(s, x, max_age).last() == x,
{
    let n = s.len() as int;
    let tx = x.timestamp.ns();
    assert(splits_at(s, tx, true, n)) by {
        assert forall|i: int| 0 <= i < n implies before_cut(#[trigger] stamp(s, i), tx, true) by {
            assert(stamp(s, i) <= stamp(s, n - 1));
        }
    }
    lemma_split_index(s, tx, true, n);
    lemma_push_evicts_only_stale(s, x, max_age);
    let t = inserted(s, x);
    assert(t.last() == x);
}

/// With no limit, a window holds exactly the samples within its bounds, in
/// their order: a run of consecutive samples from `window_start`.
pub proof fn lemma_window_selects(s: Seq<Arc<ContainerStats>>, start: GoTime, end: GoTime)
    requires
        in_time_order(s),
    ensures
        window(s, start, end, -1i64) == s.subrange(
            window_start(s, start),
            window_start(s, start) + window(s, start, end, -1i64).len(),
        ),
        forall|i: int|
            0 <= i < s.len() ==> (in_bounds(#[trigger] stamp(s, i), start, end) <==> (window_start(
                s,
                start,
            ) <= i < window_start(s, start) + window(s, start, end, -1i64).len())),
{
    lemma_split_exists(s, start.ns(), false);
    lemma_split_exists(s, end.ns(), true);
    let lo = window_start(s, start);
    let hi = if end.spec_is_zero() {
        s.len() as int
    } else {
        split_index(s, end.ns(), true)
    };
    let w = window(s, start, end, -1i64);
    assert forall|i: int| 0 <= i < s.len() implies (in_bounds(#[trigger] stamp(s, i), start, end) <==> (lo <= i < lo + w.len())) by {
        if !start.spec_is_zero() {
            if i < lo {
                assert(before_cut(stamp(s, i), start.ns(), false));
            } else {
                assert(!before_cut(stamp(s, i), start.ns(), false));
            }
        }
        if !end.spec_is_zero() {
            if i < hi {
                assert(before_cut(stamp(s, i), end.ns(), true));
            } else {
                assert(!before_cut(stamp(s, i), end.ns(), true));
            }
        }
    }
    if s.len() == 0 || lo >= hi {
        assert(s.subrange(lo, lo) =~= Seq::<Arc<ContainerStats>>::empty());
    }
}

/// A window is in time order and within its bounds; with a non-negative `max`
/// it keeps the `max` most recent of the unlimited window (all of it when
/// that has no more), in the same order.
pub proof fn lemma_window_most_recent(s: Seq<Arc<ContainerStats>>, start: GoTime, end: GoTime, max: i64)
    requires
        in_time_order(s),
    ensures
        in_time_order(window(s, start, end, max)),
        forall|i: int|
            0 <= i < window(s, start, end, max).len() ==> in_bounds(
                #[trigger] stamp(window(s, start, end, max), i),
                start,
                end,
            ),
        max < 0 ==> window(s, start, end, max) == window(s, start, end, -1i64),
        max >= 0 ==> window(s, start, end, max).len() == (if window(s, start, end, -1i64).len() <= max {
            window(s, start, end, -1i64).len() as int
        } else {
            max as int
        }),
        window(s, start, end, max) == window(s, start, end, -1i64).subrange(
            window(s, start, end, -1i64).len() - window(s, start, end, max).len(),
            window(s, start, end, -1i64).len() as int,
        ),
{
    lemma_window_selects(s, start, end);
    let all = window(s, start, end, -1i64);
    let w = window(s, start, end, max);
    let lo = window_start(s, start);
    let off = lo + all.len() - w.len();
    lemma_split_exists(s, start.ns(), false);
    lemma_split_exists(s, end.ns(), true);
    let hi = if end.spec_is_zero() {
        s.len() as int
    } else {
        split_index(s, end.ns(), true)
    };
    if s.len() == 0 || lo >= hi {
        assert(w =~= s.subrange(off, lo + all.len()));
    } else {
        assert(all == s.subrange(lo, hi));
        assert(w == s.subrange(off, lo + all.len()));
    }
    assert(w =~= all.subrange(all.len() - w.len(), all.len() as int));
    assert forall|i: int| 0 <= i < w.len() implies #[trigger] stamp(w, i) == stamp(s, i + off) by {}
    assert forall|i: int, j: int| 0 <= i <= j < w.len() implies stamp(w, i) <= stamp(w, j) by {
        assert(stamp(s, i + off) <= stamp(s, j + off));
    }
    assert forall|i: int| 0 <= i < w.len() implies in_bounds(#[trigger] stamp(w, i), start, end) by {
        assert(in_bounds(stamp(s, i + off), start, end));
    }
}

/// `Arc::clone`: a second handle to the same allocation, so to the very same value.
#[verifier::external_body]
pub(crate) fn share<T>(a: &Arc<T>) -> (r: Arc<T>)
    ensures
        r == *a,
{
    Arc::clone(a)
}

pub struct TimedStore {
    buf: VecDeque<Arc<ContainerStats>>,
    max_age: Span,
}

impl View for TimedStore {
    type V = Seq<Arc<ContainerStats>>;

    closed spec fn view(&self) -> Seq<Arc<ContainerStats>> {
        self.buf@
    }
}

impl TimedStore {
    /// The age past which samples are evicted.
    pub closed spec fn max_age(&self) -> Span {
        self.max_age
    }

    /// The store's invariant: samples in time order, each stamp a valid instant.
    pub closed spec fn wf(&self) -> bool {
        &&& in_time_order(self.buf@)
        &&& valid_stamps(self.buf@)
        &&& self.max_age.nanos < 1_000_000_000
    }

    /// What the invariant says of the samples.
    pub proof fn lemma_wf(&self)
        requires
            self.wf(),
        ensures
            in_time_order(self@),
            valid_stamps(self@),
            self.max_age().nanos < 1_000_000_000,
    {
    }

    pub fn new(max_age: Span) -> (s: TimedStore)
        requires
            max_age.nanos < 1_000_000_000,
        ensures
            s.wf(),
            s@ == Seq::<Arc<ContainerStats>>::empty(),
            s.max_age() == max_age,
    {
        TimedStore { buf: VecDeque::new(), max_age }
    }

    pub fn len(&self) -> (n: usize)
        ensures
            n == self@.len(),
    {
        self.buf.len()
    }

    pub fn is_empty(&self) -> (b: bool)
        ensures
            b == (self@.len() == 0),
    {
        self.buf.len() == 0
    }

    /// The number of leading samples stamped before `t` (or at it, when `inclusive`).
    fn split_point(&self, t: i128, inclusive: bool) -> (k: usize)
        requires
            in_time_order(self@),
        ensures
            splits_at(self@, t as int, inclusive, k as int),
            k == split_index(self@, t as int, inclusive),
    {
        let mut lo: usize = 0;
        let mut hi: usize = self.buf.len();
        while lo < hi
            invariant
                in_time_order(self.buf@),
                0 <= lo <= hi <= self.buf@.len(),
                forall|i: int| 0 <= i < lo ==> before_cut(#[trigger] stamp(self.buf@, i), t as int, inclusive),
                forall|i: int| hi <= i < self.buf@.len() ==> !before_cut(#[trigger] stamp(self.buf@, i), t as int, inclusive),
            decreases hi - lo,
        {
            let mid = lo + (hi - lo) / 2;
            let m = self.buf[mid].timestamp.total_nanos();
            let before = if inclusive {
                m <= t
            } else {
                m < t
            };
            proof {
                assert(m == stamp(self.buf@, mid as int));
            }
            if before {
                assert forall|i: int| 0 <= i < mid + 1 implies before_cut(#[trigger] stamp(self.buf@, i), t as int, inclusive) by {
                    if i < lo {
                    } else {
                        assert(stamp(self.buf@, i) <= stamp(self.buf@, mid as int));
                    }
                }
                lo = mid + 1;
            } else {
                assert forall|i: int| mid <= i < self.buf@.len() implies !before_cut(#[trigger] stamp(self.buf@, i), t as int, inclusive) by {
                    if i >= hi {
                    } else {
                        assert(stamp(self.buf@, mid as int) <= stamp(self.buf@, i));
                    }
                }
                hi = mid;
            }
        }
        proof {
            lemma_split_index(self@, t as int, inclusive, lo as int);
        }
        lo
    }

    /// Adds a sample (normally the newest) behind every sample stamped no later
    /// than it, then evicts the samples older than the newest stamp less the
    /// maximum age, keeping at least the newest.
    pub fn push(&mut self, sample: Arc<ContainerStats>)
        requires
            old(self).wf(),
            sample.timestamp.valid(),
            push_cutoff(old(self)@, sample, old(self).max_age()) >= CHRONO_MIN_SECS * 1_000_000_000,
        ensures
            final(self).wf(),
            final(self)@ == pushed(old(self)@, sample, old(self).max_age()),
            final(self).max_age() == old(self).max_age(),
    {
        let ghost s0 = self.buf@;
        let t = sample.timestamp.total_nanos();
        let n = self.buf.len();
        if n > 0 && t < self.buf[n - 1].timestamp.total_nanos() {
            let pos = self.split_point(t, true);
            self.buf.insert(pos, sample);
        } else {
            proof {
                assert(splits_at(s0, t as int, true, n as int)) by {
                    assert forall|i: int| 0 <= i < n implies before_cut(#[trigger] stamp(s0, i), t as int, true) by {
                        assert(stamp(s0, i) <= stamp(s0, n - 1));
                    }
                }
                lemma_split_index(s0, t as int, true, n as int);
                assert(s0.insert(n as int, sample) =~= s0.push(sample));
            }
            self.buf.push_back(sample);
        }
        let ghost ins = self.buf@;
        proof {
            lemma_split_exists(s0, t as int, true);
            lemma_inserted_order(s0, sample);
        }
        let len = self.buf.len();
        let newest = self.buf[len - 1].timestamp.total_nanos();
        let cutoff = newest - age_limit(self.max_age);
        let ghost mut d: int = 0;
        while self.buf.len() > 1 && self.buf[0].timestamp.total_nanos() < cutoff
            invariant
                in_time_order(ins),
                valid_stamps(ins),
                0 <= d <= ins.len() - 1,
                self.buf@ == ins.subrange(d, ins.len() as int),
                self.max_age == old(self).max_age,
                self.max_age.nanos < 1_000_000_000,
                forall|i: int| 0 <= i < d ==> #[trigger] stamp(ins, i) < cutoff,
            decreases self.buf@.len(),
        {
            proof {
                assert(stamp(ins, d) == stamp(self.buf@, 0));
            }
            self.buf.pop_front();
            proof {
                d = d + 1;
            }
        }
        proof {
            let m = ins.len() - 1;
            if self.buf@.len() == 1 && stamp(ins, m) < cutoff {
                assert(splits_at(ins, cutoff as int, false, ins.len() as int)) by {
                    assert forall|i: int| 0 <= i < ins.len() implies before_cut(#[trigger] stamp(ins, i), cutoff as int, false) by {
                        if i >= d {
                            assert(stamp(ins, i) <= stamp(ins, m));
                        }
                    }
                }
                lemma_split_index(ins, cutoff as int, false, ins.len() as int);
            } else {
                assert(stamp(ins, d) == stamp(self.buf@, 0));
                assert(splits_at(ins, cutoff as int, false, d)) by {
                    assert forall|i: int| d <= i < ins.len() implies !before_cut(#[trigger] stamp(ins, i), cutoff as int, false) by {
                        assert(stamp(ins, d) <= stamp(ins, i));
                    }
                }
                lemma_split_index(ins, cutoff as int, false, d);
            }
            assert(in_time_order(self.buf@)) by {
                assert forall|i: int, j: int| 0 <= i <= j < self.buf@.len() implies stamp(self.buf@, i) <= stamp(self.buf@, j) by {
                    assert(stamp(self.buf@, i) == stamp(ins, i + d));
                    assert(stamp(self.buf@, j) == stamp(ins, j + d));
                }
            }
            assert(valid_stamps(self.buf@)) by {
                assert forall|i: int| 0 <= i < self.buf@.len() implies (#[trigger] self.buf@[i]).timestamp.valid() by {
                    assert(self.buf@[i] == ins[i + d]);
                }
            }
        }
    }

    /// The newest sample.
    pub fn latest(&self) -> (r: Option<Arc<ContainerStats>>)
        ensures
            r == (if self@.len() == 0 {
                None
            } else {
                Some(self@.last())
            }),
    {
        let n = self.buf.len();
        if n == 0 {
            None
        } else {
            Some(share(&self.buf[n - 1]))
        }
    }

    /// The two newest samples, older first.
    pub fn two_latest(&self) -> (r: Option<(Arc<ContainerStats>, Arc<ContainerStats>)>)
        ensures
            r == (if self@.len() < 2 {
                None
            } else {
                Some((self@[self@.len() - 2], self@[self@.len() - 1]))
            }),
    {
        let n = self.buf.len();
        if n < 2 {
            return None;
        }
        Some((share(&self.buf[n - 2]), share(&self.buf[n - 1])))
    }

    /// The samples stamped in `[start, end]`, oldest first; a zero `start` or
    /// `end` leaves that side open, and a non-negative `max` keeps only the
    /// `max` most recent of them.
    pub fn in_range(&self, start: GoTime, end: GoTime, max: i64) -> (r: Vec<Arc<ContainerStats>>)
        requires
            self.wf(),
        ensures
            r@ == window(self@, start, end, max),
    {
        let n = self.buf.len();
        if n == 0 {
            return Vec::new();
        }
        let lo = if start.is_zero() {
            0
        } else {
            self.split_point(start.total_nanos(), false)
        };
        let hi = if end.is_zero() {
            n
        } else {
            self.split_point(end.total_nanos(), true)
        };
        if lo >= hi {
            return Vec::new();
        }
        let mut lo = lo;
        let count = hi - lo;
        if max >= 0 && count as u64 > max as u64 {
            lo = hi - max as usize;
        }
        let mut out: Vec<Arc<ContainerStats>> = Vec::new();
        let mut i = lo;
        while i < hi
            invariant
                lo <= i <= hi <= self.buf@.len(),
                out@ == self.buf@.subrange(lo as int, i as int),
            decreases hi - i,
        {
            out.push(share(&self.buf[i]));
            i = i + 1;
        }
        out
    }
}

} // verus!
