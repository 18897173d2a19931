//! Derived statistics: how far the cumulative CPU counters moved between two
//! samples, the integer part of the instantaneous CPU rate.

use std::sync::Arc;

use vstd::prelude::*;

use crate::model::ContainerStats;

verus! {

/// Growth of the CPU counters (nanoseconds of CPU time) over a wall-clock
/// interval of `interval_ns` nanoseconds.
#[derive(Debug, Clone, PartialEq)]
pub struct CpuDeltas {
    pub interval_ns: u64,
    pub total: u64,
    pub per_cpu: Vec<u64>,
    pub user: u64,
    pub system: u64,
}

/// The wall-clock nanoseconds from `last` to `cur`.
pub open spec fn interval_of(last: ContainerStats, cur: ContainerStats) -> int {
    cur.timestamp.ns() - last.timestamp.ns()
}

/// A rate can be derived: time moved forward by at most `i64::MAX`
/// nanoseconds, the per-CPU count is unchanged and no counter decreased.
pub open spec fn deltas_defined(last: ContainerStats, cur: ContainerStats) -> bool {
    let l = last.cpu.usage;
    let c = cur.cpu.usage;
    &&& 0 < interval_of(last, cur) <= i64::MAX
    &&& l.per_cpu@.len() == c.per_cpu@.len()
    &&& l.total <= c.total
    &&& l.user <= c.user
    &&& l.system <= c.system
    &&& forall|i: int| 0 <= i < c.per_cpu@.len() ==> l.per_cpu@[i] <= #[trigger] c.per_cpu@[i]
}

/// The deltas are exactly the counters' growth.
pub open spec fn deltas_of(d: CpuDeltas, last: ContainerStats, cur: ContainerStats) -> bool {
    let l = last.cpu.usage;
    let c = cur.cpu.usage;
    &&& d.interval_ns == interval_of(last, cur)
    &&& d.total == c.total - l.total
    &&& d.user == c.user - l.user
    &&& d.system == c.system - l.system
    &&& d.per_cpu@.len() == c.per_cpu@.len()
    &&& forall|i: int| 0 <= i < c.per_cpu@.len() ==> #[trigger] d.per_cpu@[i] == c.per_cpu@[i] - l.per_cpu@[i]
}

/// The counters' growth from `last` to `cur`, or `None` where no rate can
/// be derived (time did not move forward, the per-CPU count changed, or a
/// counter decreased).
pub fn cpu_deltas(last: &ContainerStats, cur: &ContainerStats) -> (r: Option<CpuDeltas>)
    ensures
        r is Some <==> deltas_defined(*last, *cur),
        r matches Some(d) ==> deltas_of(d, *last, *cur),
{
    let t0 = last.timestamp.total_nanos();
    let t1 = cur.timestamp.total_nanos();
    if t1 <= t0 {
        return None;
    }
    let l = &last.cpu.usage;
    let c = &cur.cpu.usage;
    if l.per_cpu.len() != c.per_cpu.len() {
        return None;
    }
    if t1 - t0 > 0x7fff_ffff_ffff_ffff {
        return None;
    }
    let interval_ns = (t1 - t0) as u64;
    let mut per_cpu: Vec<u64> = Vec::new();
    let mut i: usize = 0;
    while i < c.per_cpu.len()
        invariant
            i <= c.per_cpu@.len() == l.per_cpu@.len(),
            *l == last.cpu.usage,
            *c == cur.cpu.usage,
            per_cpu@.len() == i,
            forall|k: int| 0 <= k < i ==> l.per_cpu@[k] <= #[trigger] c.per_cpu@[k],
            forall|k: int| 0 <= k < i ==> #[trigger] per_cpu@[k] == c.per_cpu@[k] - l.per_cpu@[k],
        decreases c.per_cpu.len() - i,
    {
        if c.per_cpu[i] < l.per_cpu[i] {
            assert(!(l.per_cpu@[i as int] <= c.per_cpu@[i as int]));
            return None;
        }
        per_cpu.push(c.per_cpu[i] - l.per_cpu[i]);
        i += 1;
    }
    if c.total < l.total || c.user < l.user || c.system < l.system {
        return None;
    }
    Some(CpuDeltas { interval_ns, total: c.total - l.total, per_cpu, user: c.user - l.user, system: c.system - l.system })
}

/// For each sample, the deltas from the sample before it (`None` for the
/// first sample and wherever no rate can be derived).
pub fn successive_deltas(samples: &Vec<Arc<ContainerStats>>) -> (r: Vec<Option<CpuDeltas>>)
    ensures
        r@.len() == samples@.len(),
        samples@.len() > 0 ==> r@[0] is None,
        forall|i: int|
            0 < i < samples@.len() ==> {
                &&& (#[trigger] r@[i] is Some <==> deltas_defined(*samples@[i - 1], *samples@[i]))
                &&& (r@[i] matches Some(d) ==> deltas_of(d, *samples@[i - 1], *samples@[i]))
            },
{
    let mut out: Vec<Option<CpuDeltas>> = Vec::new();
    let mut i: usize = 0;
    while i < samples.len()
        invariant
            i <= samples@.len(),
            out@.len() == i,
            i > 0 ==> out@[0] is None,
            forall|k: int|
                0 < k < i ==> {
                    &&& (#[trigger] out@[k] is Some <==> deltas_defined(*samples@[k - 1], *samples@[k]))
                    &&& (out@[k] matches Some(d) ==> deltas_of(d, *samples@[k - 1], *samples@[k]))
                },
        decreases samples.len() - i,
    {
        if i == 0 {
            out.push(None);
        } else {
            out.push(cpu_deltas(&samples[i - 1], &samples[i]));
        }
        i += 1;
    }
    out
}

} // verus!
