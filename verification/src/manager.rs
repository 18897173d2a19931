//! The container manager's decisions: specs from cgroups, adaptive
//! housekeeping, container discovery and lookups, root-container extras,
//! derived CPU rates, and the storage views.

use std::sync::Arc;

use vstd::prelude::*;

use crate::api::{debug_quoted, debug_text};
use crate::host::{CgroupSpec, HostError};
use crate::fs::{disk_counters, find_disk, kept, lemma_kept_step, FsService, FsUsage, Partition};
use crate::model::{ContainerReference, ContainerSpec, ContainerStats, CpuSpec, FsStats, InterfaceStats, GoTime, MachineInfo, MemorySpec, MemoryStats, ProcessSpec, Span};
use crate::parse::DiskStatsLine;
use crate::v2::usages_sane;
use crate::order::{chars_lt, lemma_ins_by_at, sort_by, str_eq, str_lt};
use crate::text::{chars_of, lines, push_all, push_char, range_eq, starts_with, string_of, u64_field, u64_field_of, word_ranges, words};

verus! {

/// Why a manager request failed.
pub enum ManagerError {
    UnknownContainer(String),
    Host(HostError),
}

impl ManagerError {
    pub open spec fn text(self) -> Seq<char> {
        match self {
            ManagerError::UnknownContainer(n) => "unknown container "@ + debug_text(n@),
            ManagerError::Host(h) => match h {
                HostError::Io { path, message, .. } => "reading "@ + path@ + ": "@ + message@,
                HostError::Parse { what, detail } => "parsing "@ + what@ + ": "@ + detail@,
            },
        }
    }

    /// The error's message: the quoted name of an unknown container, or the
    /// host error's own message.
    pub fn message(&self) -> (r: String)
        ensures
            r@ == self.text(),
    {
        match self {
            ManagerError::UnknownContainer(n) => {
                let mut m = String::new();
                push_all(&mut m, "unknown container ");
                push_all(&mut m, debug_quoted(n.as_str()).as_str());
                m
            },
            ManagerError::Host(h) => h.message(),
        }
    }
}

/// Manager settings, mirroring the upstream flags.
pub struct ManagerConfig {
    pub cgroup_root: String,
    pub housekeeping_interval: Span,
    pub max_housekeeping_interval: Span,
    pub allow_dynamic_housekeeping: bool,
    pub global_housekeeping_interval: Span,
    pub storage_duration: Span,
    pub cadvisor_version: String,
    pub containerd_socket: String,
    pub containerd_namespace: String,
    pub crio_socket: String,
}

pub open spec fn secs(n: u64) -> Span {
    Span { secs: n, nanos: 0 }
}

impl ManagerConfig {
    /// Upstream's defaults: 1s housekeeping (up to 60s when idle), a 60s
    /// global sweep, 2 minutes of stats, and the standard runtime sockets.
    pub fn default_config(cadvisor_version: &str) -> (c: ManagerConfig)
        ensures
            c.cgroup_root@ == crate::host::UNIFIED_MOUNTPOINT@,
            c.housekeeping_interval == secs(1),
            c.max_housekeeping_interval == secs(60),
            c.allow_dynamic_housekeeping,
            c.global_housekeeping_interval == secs(60),
            c.storage_duration == secs(120),
            c.cadvisor_version@ == cadvisor_version@,
            c.containerd_socket@ == "/run/containerd/containerd.sock"@,
            c.containerd_namespace@ == "k8s.io"@,
            c.crio_socket@ == "/var/run/crio/crio.sock"@,
    {
        let mut root = String::new();
        push_all(&mut root, crate::host::UNIFIED_MOUNTPOINT);
        let mut version = String::new();
        push_all(&mut version, cadvisor_version);
        let mut cd = String::new();
        push_all(&mut cd, "/run/containerd/containerd.sock");
        let mut ns = String::new();
        push_all(&mut ns, "k8s.io");
        let mut crio = String::new();
        push_all(&mut crio, "/var/run/crio/crio.sock");
        ManagerConfig {
            cgroup_root: root,
            housekeeping_interval: Span { secs: 1, nanos: 0 },
            max_housekeeping_interval: Span { secs: 60, nanos: 0 },
            allow_dynamic_housekeeping: true,
            global_housekeeping_interval: Span { secs: 60, nanos: 0 },
            storage_duration: Span { secs: 120, nanos: 0 },
            cadvisor_version: version,
            containerd_socket: cd,
            containerd_namespace: ns,
            crio_socket: crio,
        }
    }
}

// ---------------------------------------------------------------------------
// Specs
// ---------------------------------------------------------------------------

/// A v1 container spec from a cgroup's spec (the root container gets the
/// machine's memory and swap as limits, no CPU period, and network when the
/// machine has network devices).
pub open spec fn spec_of_cgroup(r: ContainerSpec, cg: CgroupSpec, name: Seq<char>, mi: MachineInfo) -> bool {
    let root = name == seq!['/'];
    &&& r.creation_time == match cg.creation_time {
        Some(t) => t,
        None => GoTime { secs: crate::model::GO_ZERO_SECS, nanos: 0 },
    }
    &&& r.labels@.len() == 0 && r.envs@.len() == 0 && r.image@.len() == 0
    &&& r.has_hugetlb == false && r.has_custom_metrics == false
    &&& r.cpu.limit == cg.cpu_shares
    &&& r.cpu.max_limit == 0
    &&& r.cpu.mask@ == cg.cpu_mask@
    &&& r.cpu.quota == match cg.cpu_quota {
        Some(q) => q,
        None => 0,
    }
    &&& r.cpu.period == (if root {
        0
    } else {
        cg.cpu_period
    })
    &&& r.memory.reservation == cg.memory_reservation
    &&& r.processes.limit == cg.pids_limit
    &&& if root {
        &&& r.has_cpu && r.has_memory && r.has_processes && r.has_disk_io && r.has_filesystem
        &&& r.memory.limit == mi.memory_capacity
        &&& r.memory.swap_limit == mi.swap_capacity
        &&& r.has_network == (mi.network_devices@.len() > 0)
    } else {
        &&& r.has_cpu == cg.has_cpu && r.has_memory == cg.has_memory
        &&& r.has_processes == cg.has_processes && r.has_disk_io == cg.has_disk_io
        &&& !r.has_filesystem && !r.has_network
        &&& r.memory.limit == cg.memory_limit
        &&& r.memory.swap_limit == cg.swap_limit
    }
}

/// Builds a raw cgroup's v1 spec.
pub fn build_spec(cg: &CgroupSpec, name: &str, mi: &MachineInfo) -> (r: ContainerSpec)
    ensures
        spec_of_cgroup(r, *cg, name@, *mi),
{
    let root = str_eq(name, "/");
    proof {
        reveal_strlit("/");
        assert("/"@ =~= seq!['/']);
    }
    let mut spec = ContainerSpec {
        creation_time: match cg.creation_time {
            Some(t) => t,
            None => GoTime::zero(),
        },
        labels: Vec::new(),
        envs: Vec::new(),
        has_cpu: cg.has_cpu,
        cpu: CpuSpec {
            limit: cg.cpu_shares,
            max_limit: 0,
            mask: cg.cpu_mask.clone(),
            quota: match cg.cpu_quota {
                Some(q) => q,
                None => 0,
            },
            period: cg.cpu_period,
        },
        has_memory: cg.has_memory,
        memory: MemorySpec { limit: cg.memory_limit, reservation: cg.memory_reservation, swap_limit: cg.swap_limit },
        has_hugetlb: false,
        has_network: false,
        has_processes: cg.has_processes,
        processes: ProcessSpec { limit: cg.pids_limit },
        has_filesystem: false,
        has_disk_io: cg.has_disk_io,
        has_custom_metrics: false,
        custom_metrics: Vec::new(),
        image: String::new(),
    };
    if root {
        spec.has_cpu = true;
        spec.cpu.period = 0;
        spec.has_memory = true;
        spec.memory.limit = mi.memory_capacity;
        spec.memory.swap_limit = mi.swap_capacity;
        spec.has_processes = true;
        spec.has_disk_io = true;
        spec.has_filesystem = true;
        spec.has_network = mi.network_devices.len() > 0;
    }
    spec
}

/// The slow-path refresh of a running container's spec from its cgroup:
/// memory availability and limits, shares, cpuset, period, quota (absent:
/// 0) and the pids limit; everything else stays.
pub fn refresh_spec(spec: &mut ContainerSpec, cg: &CgroupSpec)
    ensures
        final(spec).has_memory == cg.has_memory,
        final(spec).memory.limit == cg.memory_limit,
        final(spec).memory.swap_limit == cg.swap_limit,
        final(spec).memory.reservation == cg.memory_reservation,
        final(spec).cpu.limit == cg.cpu_shares,
        final(spec).cpu.mask@ == cg.cpu_mask@,
        final(spec).cpu.period == cg.cpu_period,
        final(spec).cpu.quota == (match cg.cpu_quota {
            Some(q) => q,
            None => 0,
        }),
        final(spec).processes.limit == cg.pids_limit,
        final(spec).creation_time == old(spec).creation_time,
        final(spec).labels == old(spec).labels,
        final(spec).envs == old(spec).envs,
        final(spec).image == old(spec).image,
        final(spec).has_cpu == old(spec).has_cpu,
        final(spec).has_network == old(spec).has_network,
        final(spec).has_processes == old(spec).has_processes,
        final(spec).has_filesystem == old(spec).has_filesystem,
        final(spec).has_disk_io == old(spec).has_disk_io,
        final(spec).cpu.max_limit == old(spec).cpu.max_limit,
{
    spec.has_memory = cg.has_memory;
    spec.memory.limit = cg.memory_limit;
    spec.memory.swap_limit = cg.swap_limit;
    spec.memory.reservation = cg.memory_reservation;
    spec.cpu.limit = cg.cpu_shares;
    spec.cpu.mask = cg.cpu_mask.clone();
    spec.cpu.period = cg.cpu_period;
    spec.cpu.quota = match cg.cpu_quota {
        Some(q) => q,
        None => 0,
    };
    spec.processes.limit = cg.pids_limit;
}

// ---------------------------------------------------------------------------
// Adaptive housekeeping
// ---------------------------------------------------------------------------

/// Nanoseconds of a span.
pub open spec fn span_ns(s: Span) -> int {
    s.secs * 1_000_000_000 + s.nanos
}

/// A span whose double still fits a `Duration`.
pub open spec fn span_doubles(s: Span) -> bool {
    s.nanos < 1_000_000_000 && s.secs <= 0x7fff_ffff_ffff_ffff
}

/// Twice a span.
fn double_span(s: Span) -> (r: Span)
    requires
        span_doubles(s),
    ensures
        span_ns(r) == 2 * span_ns(s),
        r.nanos < 1_000_000_000,
{
    let n = s.nanos * 2;
    if n >= 1_000_000_000 {
        Span { secs: s.secs * 2 + 1, nanos: n - 1_000_000_000 }
    } else {
        Span { secs: s.secs * 2, nanos: n }
    }
}

/// The interval after a sample: with dynamic housekeeping, doubled (up to
/// the maximum) while CPU and memory usage stay unchanged from the previous
/// sample, back to the base interval when they change; otherwise as it was.
pub open spec fn next_interval_spec(cfg: &ManagerConfig, interval: Span, prev: Option<Arc<ContainerStats>>, sample: ContainerStats) -> int {
    if !cfg.allow_dynamic_housekeeping {
        span_ns(interval)
    } else {
        let unchanged = match prev {
            Some(p) => p.cpu.usage.total == sample.cpu.usage.total && p.memory.usage == sample.memory.usage,
            None => false,
        };
        if unchanged {
            if 2 * span_ns(interval) <= span_ns(cfg.max_housekeeping_interval) {
                2 * span_ns(interval)
            } else {
                span_ns(cfg.max_housekeeping_interval)
            }
        } else {
            span_ns(cfg.housekeeping_interval)
        }
    }
}

/// With dynamic housekeeping, a sample whose CPU total or memory usage
/// differs from the previous sample's resets the interval to the base one;
/// only when both are unchanged is the interval doubled, capped at the
/// maximum. The first sample (no previous one) also resets to the base.
pub proof fn lemma_interval_follows_change(cfg: &ManagerConfig, interval: Span, prev: Option<Arc<ContainerStats>>, sample: ContainerStats)
    requires
        cfg.allow_dynamic_housekeeping,
    ensures
        prev is None ==> next_interval_spec(cfg, interval, prev, sample) == span_ns(cfg.housekeeping_interval),
        prev matches Some(p) && p.memory.usage != sample.memory.usage
            ==> next_interval_spec(cfg, interval, prev, sample) == span_ns(cfg.housekeeping_interval),
        prev matches Some(p) && p.cpu.usage.total != sample.cpu.usage.total
            ==> next_interval_spec(cfg, interval, prev, sample) == span_ns(cfg.housekeeping_interval),
        prev matches Some(p) && p.cpu.usage.total == sample.cpu.usage.total && p.memory.usage == sample.memory.usage
            ==> next_interval_spec(cfg, interval, prev, sample) == if 2 * span_ns(interval) <= span_ns(cfg.max_housekeeping_interval) {
                2 * span_ns(interval)
            } else {
                span_ns(cfg.max_housekeeping_interval)
            },
{
}

/// With dynamic housekeeping and a base interval no longer than the
/// maximum, the interval stays between the two: unchanged usage doubles it
/// up to the maximum (it never shrinks), a change resets it to the base.
pub proof fn lemma_interval_bounded(cfg: &ManagerConfig, interval: Span, prev: Option<Arc<ContainerStats>>, sample: ContainerStats)
    requires
        cfg.allow_dynamic_housekeeping,
        span_ns(cfg.housekeeping_interval) <= span_ns(cfg.max_housekeeping_interval),
        span_ns(cfg.housekeeping_interval) <= span_ns(interval) <= span_ns(cfg.max_housekeeping_interval),
    ensures
        span_ns(cfg.housekeeping_interval) <= next_interval_spec(cfg, interval, prev, sample) <= span_ns(cfg.max_housekeeping_interval),
        next_interval_spec(cfg, interval, prev, sample) >= span_ns(interval)
            || next_interval_spec(cfg, interval, prev, sample) == span_ns(cfg.housekeeping_interval),
{
    assert(span_ns(interval) >= 0);
}

/// What housekeeping does after a successful sample.
pub struct AfterSample {
    /// The OOM-kill count went up: record an `oom` and an `oomKill` event.
    pub record_oom: bool,
    /// How long to sleep before the next sample.
    pub interval: Span,
}

/// Decides, after a sample, whether OOM events are due and the next
/// interval.
pub fn after_sample(cfg: &ManagerConfig, interval: Span, prev: &Option<Arc<ContainerStats>>, sample: &ContainerStats) -> (a: AfterSample)
    requires
        span_doubles(interval),
    ensures
        a.record_oom == (match *prev {
            Some(p) => sample.oom_events > p.oom_events,
            None => false,
        }),
        span_ns(a.interval) == next_interval_spec(cfg, interval, *prev, *sample),
{
    let record_oom = match prev {
        Some(p) => sample.oom_events > p.oom_events,
        None => false,
    };
    let next = if cfg.allow_dynamic_housekeeping {
        let unchanged = match prev {
            Some(p) => p.cpu.usage.total == sample.cpu.usage.total && p.memory.usage == sample.memory.usage,
            None => false,
        };
        if unchanged {
            let d = double_span(interval);
            let m = cfg.max_housekeeping_interval;
            let dn = (d.secs as u128) * 1_000_000_000 + d.nanos as u128;
            let mn = (m.secs as u128) * 1_000_000_000 + m.nanos as u128;
            if dn <= mn {
                d
            } else {
                m
            }
        } else {
            cfg.housekeeping_interval
        }
    } else {
        interval
    };
    AfterSample { record_oom, interval: next }
}

/// The slow path (writable-layer usage and spec refresh) runs on the first
/// iteration and then at least a minute apart.
pub fn slow_path_due(first_iteration: bool, since_last: Span) -> (b: bool)
    ensures
        b == (first_iteration || span_ns(since_last) >= 60_000_000_000),
{
    first_iteration || (since_last.secs as u128) * 1_000_000_000 + since_last.nanos as u128 >= 60_000_000_000
}

// ---------------------------------------------------------------------------
// Discovery
// ---------------------------------------------------------------------------

/// The last `/`-separated piece of a cgroup name.
pub open spec fn basename_spec(name: Seq<char>) -> Seq<char>
    decreases name.len(),
{
    if name.len() == 0 {
        name
    } else if name.last() == '/' {
        Seq::empty()
    } else {
        basename_spec(name.drop_last()).push(name.last())
    }
}

pub fn cgroup_basename(name: &str) -> (r: String)
    ensures
        r@ == basename_spec(name@),
{
    let v = chars_of(name);
    let mut a = v.len();
    assert(v@.subrange(a as int, a as int) =~= Seq::<char>::empty());
    assert(v@.take(a as int) =~= v@);
    assert(basename_spec(v@) + Seq::<char>::empty() =~= basename_spec(v@));
    while a > 0 && v[a - 1] != '/'
        invariant
            a <= v@.len(),
            basename_spec(v@) == basename_spec(v@.take(a as int)) + v@.subrange(a as int, v@.len() as int),
        decreases a,
    {
        assert(v@.take(a as int).drop_last() == v@.take(a - 1));
        assert(v@.take(a as int).last() == v@[a - 1]);
        assert(v@.subrange(a - 1, v@.len() as int) =~= seq![v@[a - 1]] + v@.subrange(a as int, v@.len() as int));
        let ghost t = v@.take(a - 1);
        assert(basename_spec(v@.take(a as int)) == basename_spec(t).push(v@[a - 1]));
        assert(basename_spec(t).push(v@[a - 1]) + v@.subrange(a as int, v@.len() as int)
            =~= basename_spec(t) + v@.subrange(a - 1, v@.len() as int));
        a -= 1;
    }
    proof {
        assert(v@.take(v@.len() as int) == v@);
        if a > 0 {
            assert(v@.take(a as int).last() == v@[a - 1]);
            assert(basename_spec(v@.take(a as int)) =~= Seq::<char>::empty());
        } else {
            assert(v@.take(0) =~= Seq::<char>::empty());
        }
    }
    string_of(&v, a, v.len())
}

/// systemd mount units are not containers.
pub fn is_mount_unit(name: &str) -> (b: bool)
    ensures
        b == crate::runtime::ends_with_text(name@, ".mount"@),
{
    let v = chars_of(name);
    crate::machine::text_ends_with(&v, ".mount")
}

/// How a newly found container is monitored.
pub struct Placement {
    pub reference: ContainerReference,
    /// PID for `/proc/<pid>/net` readings (the root container: 1).
    pub init_pid: Option<u32>,
    /// Whether this container's samples carry network stats.
    pub reports_network: bool,
    /// Writable-layer directory for filesystem accounting.
    pub rootfs_diff: Option<String>,
}

/// Places a new container: a raw cgroup is referenced by name (the root
/// container reads PID 1's network); runtime metadata, when there is any,
/// adds the id, aliases and namespace, sets the image and labels, and decides
/// network and filesystem accounting.
pub fn place_container(name: &str, spec: &mut ContainerSpec, meta: Option<crate::runtime::ContainerMeta>) -> (p: Placement)
    ensures
        p.reference.name@ == name@,
        match meta {
            Some(m) => {
                &&& p.reference.id == m.id
                &&& p.reference.aliases == m.aliases
                &&& p.reference.namespace == m.namespace
                &&& final(spec).image == m.image
                &&& final(spec).labels == m.labels
                &&& final(spec).has_network == m.reports_network
                &&& final(spec).has_filesystem == (m.rootfs_diff is Some)
                &&& p.init_pid == m.init_pid
                &&& p.reports_network == m.reports_network
                &&& p.rootfs_diff == m.rootfs_diff
            },
            None => {
                &&& p.reference.id@.len() == 0 && p.reference.aliases@.len() == 0 && p.reference.namespace@.len() == 0
                &&& *final(spec) == *old(spec)
                &&& p.init_pid == (if name@ == seq!['/'] { Some(1u32) } else { None })
                &&& p.reports_network == (name@ == seq!['/'])
                &&& p.rootfs_diff is None
            },
        },
{
    let root = str_eq(name, "/");
    proof {
        reveal_strlit("/");
        assert("/"@ =~= seq!['/']);
    }
    let mut n = String::new();
    push_all(&mut n, name);
    match meta {
        Some(m) => {
            spec.image = m.image;
            spec.labels = m.labels;
            spec.has_network = m.reports_network;
            spec.has_filesystem = m.rootfs_diff.is_some();
            Placement {
                reference: ContainerReference { id: m.id, name: n, aliases: m.aliases, namespace: m.namespace },
                init_pid: m.init_pid,
                reports_network: m.reports_network,
                rootfs_diff: m.rootfs_diff,
            }
        },
        None => Placement {
            reference: ContainerReference { id: String::new(), name: n, aliases: Vec::new(), namespace: String::new() },
            init_pid: if root {
                Some(1)
            } else {
                None
            },
            reports_network: root,
            rootfs_diff: None,
        },
    }
}

/// The names under `name`: itself and the names below it.
pub open spec fn subtree_prefix(name: Seq<char>) -> Seq<char> {
    if name == seq!['/'] {
        seq!['/']
    } else {
        name + seq!['/']
    }
}

fn prefix_of(name: &str) -> (r: String)
    ensures
        r@ == subtree_prefix(name@),
{
    let root = str_eq(name, "/");
    proof {
        reveal_strlit("/");
        assert("/"@ =~= seq!['/']);
    }
    let mut p = String::new();
    push_all(&mut p, name);
    if !root {
        push_char(&mut p, '/');
    }
    p
}

/// Orders names.
pub open spec fn text_lt() -> spec_fn(Seq<char>, Seq<char>) -> bool {
    |a: Seq<char>, b: Seq<char>| chars_lt(a, b)
}

/// Sorts names (stably).
pub fn sort_names(v: &Vec<String>) -> (r: Vec<String>)
    ensures
        r@.map_values(|s: String| s@) == sort_by(v@.map_values(|s: String| s@), text_lt()),
{
    let ghost nv = v@.map_values(|s: String| s@);
    let mut out: Vec<String> = Vec::new();
    let mut i: usize = 0;
    while i < v.len()
        invariant
            i <= v@.len(),
            nv == v@.map_values(|s: String| s@),
            out@.map_values(|s: String| s@) == sort_by(nv.take(i as int), text_lt()),
        decreases v.len() - i,
    {
        let x = v[i].clone();
        let ghost ov = out@.map_values(|s: String| s@);
        let mut j: usize = 0;
        while j < out.len() && !str_lt(x.as_str(), out[j].as_str())
            invariant
                j <= out@.len(),
                ov == out@.map_values(|s: String| s@),
                forall|m: int| 0 <= m < j ==> !(text_lt())(x@, #[trigger] ov[m]),
            decreases out.len() - j,
        {
            j += 1;
        }
        proof {
            assert(nv.take(i + 1).drop_last() == nv.take(i as int));
            assert(nv.take(i + 1).last() == x@);
            lemma_ins_by_at(ov, x@, text_lt(), j as int);
        }
        out.insert(j, x);
        assert(out@.map_values(|s: String| s@) =~= ov.insert(j as int, x@));
        i += 1;
    }
    assert(nv.take(v@.len() as int) == nv);
    out
}

/// The names in `name`'s subtree: `name` and the names below it.
pub open spec fn in_subtree(k: Seq<char>, name: Seq<char>) -> bool {
    k == name || starts_with(k, subtree_prefix(name))
}

/// The names of `names` in a subtree, in order.
pub open spec fn subtree_names(names: Seq<Seq<char>>, name: Seq<char>) -> Seq<Seq<char>>
    decreases names.len(),
{
    if names.len() == 0 {
        Seq::empty()
    } else {
        subtree_names(names.drop_last(), name) + (if in_subtree(names.last(), name) {
            seq![names.last()]
        } else {
            Seq::empty()
        })
    }
}

/// The known container names of `name`'s subtree, sorted.
pub fn subtree(names: &Vec<String>, name: &str) -> (r: Vec<String>)
    ensures
        r@.map_values(|s: String| s@) == sort_by(subtree_names(names@.map_values(|s: String| s@), name@), text_lt()),
{
    let ghost nv = names@.map_values(|s: String| s@);
    let p = prefix_of(name);
    let mut sel: Vec<String> = Vec::new();
    let mut i: usize = 0;
    while i < names.len()
        invariant
            i <= names@.len(),
            nv == names@.map_values(|s: String| s@),
            p@ == subtree_prefix(name@),
            sel@.map_values(|s: String| s@) == subtree_names(nv.take(i as int), name@),
        decreases names.len() - i,
    {
        assert(nv.take(i + 1).drop_last() == nv.take(i as int));
        assert(nv.take(i + 1).last() == names@[i as int]@);
        let k = &names[i];
        let kv = chars_of(k.as_str());
        let ghost before = sel@;
        if str_eq(k.as_str(), name) || crate::machine::text_starts_with(&kv, p.as_str()) {
            sel.push(k.clone());
            assert(sel@.map_values(|s: String| s@) =~= before.map_values(|s: String| s@).push(k@));
        }
        i += 1;
    }
    assert(nv.take(names@.len() as int) == nv);
    sort_names(&sel)
}

/// A direct child of `name`: under its prefix, one more level.
pub open spec fn direct_child(k: Seq<char>, name: Seq<char>) -> bool {
    let p = subtree_prefix(name);
    starts_with(k, p) && k.len() > p.len() && crate::text::find_char(k.skip(p.len() as int), '/') < 0
}

pub open spec fn children_names(names: Seq<Seq<char>>, name: Seq<char>) -> Seq<Seq<char>>
    decreases names.len(),
{
    if names.len() == 0 {
        Seq::empty()
    } else {
        children_names(names.drop_last(), name) + (if direct_child(names.last(), name) {
            seq![names.last()]
        } else {
            Seq::empty()
        })
    }
}

/// References to the direct subcontainers of `name`, sorted by name.
pub fn direct_children(names: &Vec<String>, name: &str) -> (r: Vec<ContainerReference>)
    ensures
        r@.len() == sort_by(children_names(names@.map_values(|s: String| s@), name@), text_lt()).len(),
        forall|i: int| 0 <= i < r@.len() ==> {
            &&& (#[trigger] r@[i]).name@ == sort_by(children_names(names@.map_values(|s: String| s@), name@), text_lt())[i]
            &&& r@[i].id@.len() == 0 && r@[i].aliases@.len() == 0 && r@[i].namespace@.len() == 0
        },
{
    let ghost nv = names@.map_values(|s: String| s@);
    let p = prefix_of(name);
    let pv = chars_of(p.as_str());
    let mut sel: Vec<String> = Vec::new();
    let mut i: usize = 0;
    while i < names.len()
        invariant
            i <= names@.len(),
            nv == names@.map_values(|s: String| s@),
            p@ == subtree_prefix(name@),
            pv@ == p@,
            sel@.map_values(|s: String| s@) == children_names(nv.take(i as int), name@),
        decreases names.len() - i,
    {
        assert(nv.take(i + 1).drop_last() == nv.take(i as int));
        assert(nv.take(i + 1).last() == names@[i as int]@);
        let k = &names[i];
        let kv = chars_of(k.as_str());
        let ghost before = sel@;
        if crate::machine::text_starts_with(&kv, p.as_str()) && kv.len() > pv.len() {
            let slash = crate::text::find_char_in(&kv, pv.len(), kv.len(), '/');
            assert(kv@.subrange(pv.len() as int, kv@.len() as int) == kv@.skip(pv@.len() as int));
            if slash.is_none() {
                sel.push(k.clone());
                assert(sel@.map_values(|s: String| s@) =~= before.map_values(|s: String| s@).push(k@));
            }
        }
        i += 1;
    }
    assert(nv.take(names@.len() as int) == nv);
    let sorted = sort_names(&sel);
    let mut out: Vec<ContainerReference> = Vec::new();
    let mut j: usize = 0;
    while j < sorted.len()
        invariant
            j <= sorted@.len(),
            out@.len() == j,
            forall|m: int| 0 <= m < j ==> {
                &&& (#[trigger] out@[m]).name@ == sorted@[m]@
                &&& out@[m].id@.len() == 0 && out@[m].aliases@.len() == 0 && out@[m].namespace@.len() == 0
            },
        decreases sorted.len() - j,
    {
        out.push(ContainerReference { id: String::new(), name: sorted[j].clone(), aliases: Vec::new(), namespace: String::new() });
        j += 1;
    }
    proof {
        assert forall|m: int| 0 <= m < out@.len() implies (#[trigger] out@[m]).name@ == sort_by(children_names(nv, name@), text_lt())[m] by {
            assert(sorted@.map_values(|s: String| s@)[m] == sorted@[m]@);
        }
    }
    out
}

/// Whether a container answers a runtime (`docker`) lookup: it has runtime
/// metadata, and the query is empty, a prefix of its id, or one of its
/// aliases.
pub open spec fn runtime_match_spec(r: ContainerReference, q: Seq<char>) -> bool {
    r.namespace@.len() > 0 && (q.len() == 0 || starts_with(r.id@, q) || exists|i: int| 0 <= i < r.aliases@.len() && #[trigger] r.aliases@[i]@ == q)
}

pub fn runtime_match(r: &ContainerReference, q: &str) -> (b: bool)
    ensures
        b == runtime_match_spec(*r, q@),
{
    if r.namespace.as_str().is_empty() {
        return false;
    }
    if q.is_empty() {
        return true;
    }
    let idv = chars_of(r.id.as_str());
    if crate::machine::text_starts_with(&idv, q) {
        return true;
    }
    crate::metrics::contains_str(&r.aliases, q)
}

// ---------------------------------------------------------------------------
// Root-container extras
// ---------------------------------------------------------------------------

/// The value of the last meminfo line whose first word is `key`: its
/// second word as a number (0 when missing or not a number); 0 without
/// such a line.
pub open spec fn meminfo_value(ls: Seq<Seq<char>>, key: Seq<char>) -> u64
    decreases ls.len(),
{
    if ls.len() == 0 {
        0
    } else {
        let w = words(ls.last());
        if w.len() > 0 && w[0] == key {
            if w.len() > 1 {
                u64_field(w[1])
            } else {
                0
            }
        } else {
            meminfo_value(ls.drop_last(), key)
        }
    }
}

/// `MemTotal` and `MemFree` of a meminfo text, in KiB.
pub fn meminfo_totals(content: &str) -> (r: (u64, u64))
    ensures
        r.0 == meminfo_value(lines(content@), "MemTotal:"@),
        r.1 == meminfo_value(lines(content@), "MemFree:"@),
{
    let (v, ls) = crate::parse::lines_of(content);
    let kt = chars_of("MemTotal:");
    let kf = chars_of("MemFree:");
    let ghost l = lines(content@);
    let mut total: Option<u64> = None;
    let mut free: Option<u64> = None;
    let mut i = ls.len();
    assert(l.take(i as int) =~= l);
    while i > 0
        invariant
            i <= ls@.len() == l.len(),
            l == lines(content@),
            kt@ == "MemTotal:"@,
            kf@ == "MemFree:"@,
            forall|j: int| 0 <= j < ls@.len() ==> #[trigger] ls@[j].0 <= ls@[j].1 <= v@.len(),
            forall|j: int| 0 <= j < ls@.len() ==> #[trigger] v@.subrange(ls@[j].0 as int, ls@[j].1 as int) == l[j],
            match total {
                Some(t) => t == meminfo_value(l, "MemTotal:"@),
                None => meminfo_value(l, "MemTotal:"@) == meminfo_value(l.take(i as int), "MemTotal:"@),
            },
            match free {
                Some(t) => t == meminfo_value(l, "MemFree:"@),
                None => meminfo_value(l, "MemFree:"@) == meminfo_value(l.take(i as int), "MemFree:"@),
            },
        decreases i,
    {
        let (lo, hi) = ls[i - 1];
        assert(l.take(i as int).last() == l[i - 1]);
        assert(l.take(i as int).drop_last() =~= l.take(i - 1));
        let ws = word_ranges(&v, lo, hi);
        if ws.len() > 0 {
            let value = if ws.len() > 1 {
                u64_field_of(&v, ws[1].0, ws[1].1)
            } else {
                0
            };
            if total.is_none() && range_eq(&v, ws[0].0, ws[0].1, &kt) {
                total = Some(value);
            }
            if free.is_none() && range_eq(&v, ws[0].0, ws[0].1, &kf) {
                free = Some(value);
            }
        }
        i -= 1;
    }
    assert(l.take(0) =~= Seq::<Seq<char>>::empty());
    let t = match total {
        Some(t) => t,
        None => 0,
    };
    let f = match free {
        Some(f) => f,
        None => 0,
    };
    (t, f)
}

/// The root container's memory with usage from meminfo: where the cgroup
/// reported no usage and `MemTotal` is at least `MemFree`, usage and
/// working set become their difference in bytes.
pub open spec fn root_memory_of(m: MemoryStats, total: u64, free: u64) -> MemoryStats {
    if m.usage == 0 && total >= free {
        let u = ((total - free) * 1024) as u64;
        MemoryStats { usage: u, working_set: u, ..m }
    } else {
        m
    }
}

/// The meminfo difference fits a `u64` in bytes where it is used.
pub open spec fn root_memory_fits(m: MemoryStats, total: u64, free: u64) -> bool {
    m.usage == 0 && total >= free ==> (total - free) * 1024 <= u64::MAX
}

/// A partition's row in the root container's filesystems: a `vfs`
/// filesystem with capacity, used (capacity less free), no base usage,
/// available, inodes, and the counters of its disk (0 without one).
pub open spec fn root_fs_row(r: FsStats, p: Partition, u: FsUsage, ds: Seq<DiskStatsLine>) -> bool {
    let d = disk_counters(ds, p.major, p.minor);
    &&& r.device@ == p.device@
    &&& r.fs_type@ == "vfs"@
    &&& r.limit == u.capacity
    &&& r.usage == u.capacity - u.free
    &&& r.base_usage == 0
    &&& r.available == u.available
    &&& r.has_inodes
    &&& r.inodes == u.inodes
    &&& r.inodes_free == u.inodes_free
    &&& match d {
        Some(x) => {
            &&& r.reads_completed == x.reads_completed && r.reads_merged == x.reads_merged
            &&& r.sectors_read == x.sectors_read && r.read_time == x.read_time
            &&& r.writes_completed == x.writes_completed && r.writes_merged == x.writes_merged
            &&& r.sectors_written == x.sectors_written && r.write_time == x.write_time
            &&& r.io_in_progress == x.io_in_progress && r.io_time == x.io_time
            &&& r.weighted_io_time == x.weighted_io_time
        },
        None => {
            &&& r.reads_completed == 0 && r.reads_merged == 0 && r.sectors_read == 0 && r.read_time == 0
            &&& r.writes_completed == 0 && r.writes_merged == 0 && r.sectors_written == 0 && r.write_time == 0
            &&& r.io_in_progress == 0 && r.io_time == 0 && r.weighted_io_time == 0
        },
    }
}

fn root_fs_entry(p: &Partition, u: &FsUsage, d: Option<&DiskStatsLine>, ghost_ds: Ghost<Seq<DiskStatsLine>>) -> (r: FsStats)
    requires
        u.free <= u.capacity,
        match disk_counters(ghost_ds@, p.major, p.minor) {
            Some(x) => d matches Some(y) && *y == x,
            None => d is None,
        },
    ensures
        root_fs_row(r, *p, *u, ghost_ds@),
{
    let mut vfs = String::new();
    push_all(&mut vfs, "vfs");
    let (a, b, c, e, f, g, h, i, j, k, l) = match d {
        Some(x) => (
            x.reads_completed,
            x.reads_merged,
            x.sectors_read,
            x.read_time,
            x.writes_completed,
            x.writes_merged,
            x.sectors_written,
            x.write_time,
            x.io_in_progress,
            x.io_time,
            x.weighted_io_time,
        ),
        None => (0, 0, 0, 0, 0, 0, 0, 0, 0, 0, 0),
    };
    FsStats {
        device: p.device.clone(),
        fs_type: vfs,
        limit: u.capacity,
        usage: u.capacity - u.free,
        base_usage: 0,
        available: u.available,
        has_inodes: true,
        inodes: u.inodes,
        inodes_free: u.inodes_free,
        reads_completed: a,
        reads_merged: b,
        sectors_read: c,
        read_time: e,
        writes_completed: f,
        writes_merged: g,
        sectors_written: h,
        write_time: i,
        io_in_progress: j,
        io_time: k,
        weighted_io_time: l,
    }
}

/// Everything of a sample but its memory and filesystems is the same.
pub open spec fn same_but_memory_fs(a: ContainerStats, b: ContainerStats) -> bool {
    &&& a.timestamp == b.timestamp && a.cpu == b.cpu && a.disk_io == b.disk_io
    &&& a.hugetlb == b.hugetlb && a.network == b.network && a.task_stats == b.task_stats
    &&& a.accelerators == b.accelerators && a.processes == b.processes
    &&& a.referenced_memory == b.referenced_memory && a.resctrl == b.resctrl
    &&& a.cpu_set == b.cpu_set && a.oom_events == b.oom_events
}

/// The root container's extras: memory usage from the meminfo `MemTotal`
/// and `MemFree` (KiB) where given, and one filesystem row for each
/// partition whose usage could be read (`usages[i]` of partition `i`),
/// appended in partition order.
pub fn fill_root_stats(
    stats: &mut ContainerStats,
    meminfo: Option<(u64, u64)>,
    fs: &FsService,
    usages: &Vec<Option<FsUsage>>,
    disks: &Vec<DiskStatsLine>,
)
    requires
        usages@.len() == fs.partitions@.len(),
        usages_sane(usages@),
        meminfo matches Some((t, f)) ==> root_memory_fits(old(stats).memory, t, f),
    ensures
        final(stats).memory == match meminfo {
            Some((t, f)) => root_memory_of(old(stats).memory, t, f),
            None => old(stats).memory,
        },
        same_but_memory_fs(*final(stats), *old(stats)),
        final(stats).filesystem@.len() == old(stats).filesystem@.len() + kept(usages@).len(),
        forall|j: int| 0 <= j < old(stats).filesystem@.len() ==> #[trigger] final(stats).filesystem@[j] == old(stats).filesystem@[j],
        forall|j: int|
            0 <= j < kept(usages@).len() ==> root_fs_row(
                #[trigger] final(stats).filesystem@[old(stats).filesystem@.len() + j],
                fs.partitions@[kept(usages@)[j]],
                usages@[kept(usages@)[j]]->0,
                disks@,
            ),
{
    match meminfo {
        Some((total, free)) => {
            if stats.memory.usage == 0 && total >= free {
                let u = (total - free) * 1024;
                stats.memory.usage = u;
                stats.memory.working_set = u;
            }
        },
        None => {},
    }
    let ghost base = stats.filesystem@;
    let mut i: usize = 0;
    while i < fs.partitions.len()
        invariant
            i <= fs.partitions@.len() == usages@.len(),
            usages_sane(usages@),
            base == old(stats).filesystem@,
            same_but_memory_fs(*stats, *old(stats)),
            stats.memory == match meminfo {
                Some((t, f)) => root_memory_of(old(stats).memory, t, f),
                None => old(stats).memory,
            },
            stats.filesystem@.len() == base.len() + kept(usages@.take(i as int)).len(),
            forall|j: int| 0 <= j < base.len() ==> #[trigger] stats.filesystem@[j] == base[j],
            forall|j: int|
                0 <= j < kept(usages@.take(i as int)).len() ==> root_fs_row(
                    #[trigger] stats.filesystem@[base.len() + j],
                    fs.partitions@[kept(usages@.take(i as int))[j]],
                    usages@[kept(usages@.take(i as int))[j]]->0,
                    disks@,
                ),
        decreases fs.partitions.len() - i,
    {
        proof {
            lemma_kept_step(usages@, i as int);
        }
        let ghost before = kept(usages@.take(i as int));
        match &usages[i] {
            Some(u) => {
                assert(usages@[i as int] matches Some(x) ==> x.free <= x.capacity);
                let p = &fs.partitions[i];
                let d = find_disk(disks, p.major, p.minor);
                let row = root_fs_entry(p, u, d, Ghost(disks@));
                stats.filesystem.push(row);
                assert(kept(usages@.take(i + 1)) == before.push(i as int));
            },
            None => {
                assert(kept(usages@.take(i + 1)) =~= before);
            },
        }
        i += 1;
    }
    assert(usages@.take(usages@.len() as int) =~= usages@);
}

// ---------------------------------------------------------------------------
// Global sweep
// ---------------------------------------------------------------------------

/// What a discovery sweep does: the names to add, and the names to remove
/// once their cgroup is confirmed gone.
pub struct SweepPlan {
    pub add: Vec<String>,
    pub remove_if_gone: Vec<String>,
}

/// The texts of `v` that are not in `w`, in order.
pub open spec fn missing_from(v: Seq<Seq<char>>, w: Seq<Seq<char>>) -> Seq<Seq<char>>
    decreases v.len(),
{
    if v.len() == 0 {
        Seq::empty()
    } else {
        missing_from(v.drop_last(), w) + if w.contains(v.last()) {
            Seq::<Seq<char>>::empty()
        } else {
            seq![v.last()]
        }
    }
}

/// A text is missing from `w` exactly when it is in `v` and not in `w`.
pub proof fn lemma_missing_from_contains(v: Seq<Seq<char>>, w: Seq<Seq<char>>, g: Seq<char>)
    ensures
        missing_from(v, w).contains(g) <==> (v.contains(g) && !w.contains(g)),
    decreases v.len(),
{
    if v.len() > 0 {
        let u = v.drop_last();
        lemma_missing_from_contains(u, w, g);
        let tail = if w.contains(v.last()) {
            Seq::<Seq<char>>::empty()
        } else {
            seq![v.last()]
        };
        assert(missing_from(v, w) == missing_from(u, w) + tail);
        if missing_from(v, w).contains(g) {
            let k = choose|k: int| 0 <= k < missing_from(v, w).len() && missing_from(v, w)[k] == g;
            if k < missing_from(u, w).len() {
                assert(missing_from(u, w)[k] == g);
                assert(missing_from(u, w).contains(g));
                let m = choose|m: int| 0 <= m < u.len() && u[m] == g;
                assert(v[m] == g);
            } else {
                assert(v[v.len() - 1] == g);
            }
        }
        if v.contains(g) && !w.contains(g) {
            let k = choose|k: int| 0 <= k < v.len() && v[k] == g;
            if k < u.len() {
                assert(u[k] == g);
                assert(missing_from(u, w).contains(g));
                let m = choose|m: int| 0 <= m < missing_from(u, w).len() && missing_from(u, w)[m] == g;
                assert(missing_from(v, w)[m] == g);
            } else {
                assert(missing_from(v, w)[missing_from(u, w).len() as int] == g);
            }
        }
    }
}

/// A sweep adds exactly the current cgroups that are not known yet, and
/// considers for removal exactly the known containers that are no longer
/// current, never the root.
pub proof fn lemma_sweep_plan(current: Seq<Seq<char>>, known: Seq<Seq<char>>, g: Seq<char>)
    ensures
        missing_from(current, known).contains(g) <==> (current.contains(g) && !known.contains(g)),
        missing_from(known, current.push(seq!['/'])).contains(g) <==> (known.contains(g) && !current.contains(g) && g != seq!['/']),
{
    lemma_missing_from_contains(current, known, g);
    lemma_missing_from_contains(known, current.push(seq!['/']), g);
    let c2 = current.push(seq!['/']);
    if c2.contains(g) && g != seq!['/'] {
        let k = choose|k: int| 0 <= k < c2.len() && c2[k] == g;
        assert(k < current.len());
        assert(current[k] == g);
    }
    if current.contains(g) {
        let k = choose|k: int| 0 <= k < current.len() && current[k] == g;
        assert(c2[k] == g);
    }
    if g == seq!['/'] {
        assert(c2[current.len() as int] == g);
    }
}

/// The sweep for the cgroups `current` found on disk against the `known`
/// containers: the current ones not known are added; the known ones other
/// than the root that are not current are removed if their cgroup is gone.
pub fn sweep_plan(current: &Vec<String>, known: &Vec<String>) -> (p: SweepPlan)
    ensures
        p.add@.map_values(|s: String| s@) == missing_from(current@.map_values(|s: String| s@), known@.map_values(|s: String| s@)),
        p.remove_if_gone@.map_values(|s: String| s@) == missing_from(
            known@.map_values(|s: String| s@),
            current@.map_values(|s: String| s@).push(seq!['/']),
        ),
{
    let ghost cv = current@.map_values(|s: String| s@);
    let ghost kv = known@.map_values(|s: String| s@);
    let mut add: Vec<String> = Vec::new();
    let mut i: usize = 0;
    while i < current.len()
        invariant
            i <= current@.len(),
            cv == current@.map_values(|s: String| s@),
            kv == known@.map_values(|s: String| s@),
            add@.map_values(|s: String| s@) == missing_from(cv.take(i as int), kv),
        decreases current.len() - i,
    {
        assert(cv.take(i + 1).drop_last() =~= cv.take(i as int));
        let ghost before = add@;
        let found = crate::metrics::contains_str(known, current[i].as_str());
        proof {
            if kv.contains(cv[i as int]) {
                let k = choose|k: int| 0 <= k < kv.len() && kv[k] == cv[i as int];
                assert(known@[k]@ == current@[i as int]@);
            }
            if found {
                let k = choose|k: int| 0 <= k < known@.len() && #[trigger] known@[k]@ == current@[i as int]@;
                assert(kv[k] == cv[i as int]);
            }
        }
        if !found {
            add.push(current[i].clone());
            assert(add@.map_values(|s: String| s@) =~= before.map_values(|s: String| s@).push(cv[i as int]));
        }
        i += 1;
    }
    assert(cv.take(current@.len() as int) =~= cv);
    let ghost cr = cv.push(seq!['/']);
    let mut remove_if_gone: Vec<String> = Vec::new();
    let mut j: usize = 0;
    proof {
        reveal_strlit("/");
        assert("/"@ =~= seq!['/']);
    }
    while j < known.len()
        invariant
            j <= known@.len(),
            cv == current@.map_values(|s: String| s@),
            kv == known@.map_values(|s: String| s@),
            cr == cv.push(seq!['/']),
            "/"@ == seq!['/'],
            remove_if_gone@.map_values(|s: String| s@) == missing_from(kv.take(j as int), cr),
        decreases known.len() - j,
    {
        assert(kv.take(j + 1).drop_last() =~= kv.take(j as int));
        let ghost before = remove_if_gone@;
        let k = known[j].as_str();
        let root = str_eq(k, "/");
        let found = crate::metrics::contains_str(current, k);
        proof {
            if cr.contains(kv[j as int]) && !root {
                let m = choose|m: int| 0 <= m < cr.len() && cr[m] == kv[j as int];
                assert(m < cv.len());
                assert(current@[m]@ == known@[j as int]@);
            }
            if found {
                let m = choose|m: int| 0 <= m < current@.len() && #[trigger] current@[m]@ == known@[j as int]@;
                assert(cr[m] == kv[j as int]);
            }
            if root {
                assert(cr[cv.len() as int] == kv[j as int]);
            }
        }
        if !root && !found {
            remove_if_gone.push(known[j].clone());
            assert(remove_if_gone@.map_values(|s: String| s@) =~= before.map_values(|s: String| s@).push(kv[j as int]));
        }
        j += 1;
    }
    assert(kv.take(known@.len() as int) =~= kv);
    SweepPlan { add, remove_if_gone }
}

// ---------------------------------------------------------------------------
// Sample extras
// ---------------------------------------------------------------------------

fn copy_interface(i: &InterfaceStats) -> (r: InterfaceStats)
    ensures
        r == *i,
{
    InterfaceStats {
        name: i.name.clone(),
        rx_bytes: i.rx_bytes,
        rx_packets: i.rx_packets,
        rx_errors: i.rx_errors,
        rx_dropped: i.rx_dropped,
        tx_bytes: i.tx_bytes,
        tx_packets: i.tx_packets,
        tx_errors: i.tx_errors,
        tx_dropped: i.tx_dropped,
    }
}

/// A sample with the interfaces of its network namespace: all of them,
/// and the first as the default interface (which stays as it was without
/// any).
pub fn with_network(stats: &mut ContainerStats, interfaces: Vec<InterfaceStats>)
    ensures
        final(stats).network.interfaces@ == interfaces@,
        final(stats).network.interface == (if interfaces@.len() > 0 {
            interfaces@[0]
        } else {
            old(stats).network.interface
        }),
        final(stats).network.tcp == old(stats).network.tcp,
        final(stats).network.tcp6 == old(stats).network.tcp6,
        final(stats).network.tcp_advanced == old(stats).network.tcp_advanced,
        final(stats).network.udp == old(stats).network.udp,
        final(stats).network.udp6 == old(stats).network.udp6,
        final(stats).memory == old(stats).memory,
        final(stats).filesystem == old(stats).filesystem,
        final(stats).timestamp == old(stats).timestamp && final(stats).cpu == old(stats).cpu,
        final(stats).disk_io == old(stats).disk_io && final(stats).hugetlb == old(stats).hugetlb,
        final(stats).task_stats == old(stats).task_stats && final(stats).accelerators == old(stats).accelerators,
        final(stats).processes == old(stats).processes && final(stats).referenced_memory == old(stats).referenced_memory,
        final(stats).resctrl == old(stats).resctrl && final(stats).cpu_set == old(stats).cpu_set,
        final(stats).oom_events == old(stats).oom_events,
{
    if interfaces.len() > 0 {
        stats.network.interface = copy_interface(&interfaces[0]);
    }
    stats.network.interfaces = interfaces;
}

/// The writable-layer row of a runtime container: its partition as a
/// `vfs` filesystem with the partition's capacity, availability and
/// inodes, and the layer's own usage as usage and base usage.
pub open spec fn rootfs_row(r: FsStats, p: Partition, u: FsUsage, du_bytes: u64) -> bool {
    &&& r.device@ == p.device@
    &&& r.fs_type@ == "vfs"@
    &&& r.limit == u.capacity
    &&& r.usage == du_bytes
    &&& r.base_usage == du_bytes
    &&& r.available == u.available
    &&& r.has_inodes
    &&& r.inodes == u.inodes
    &&& r.inodes_free == u.inodes_free
    &&& r.reads_completed == 0 && r.reads_merged == 0 && r.sectors_read == 0 && r.read_time == 0
    &&& r.writes_completed == 0 && r.writes_merged == 0 && r.sectors_written == 0 && r.write_time == 0
    &&& r.io_in_progress == 0 && r.io_time == 0 && r.weighted_io_time == 0
}

pub fn rootfs_entry(p: &Partition, u: &FsUsage, du_bytes: u64) -> (r: FsStats)
    ensures
        rootfs_row(r, *p, *u, du_bytes),
{
    let mut vfs = String::new();
    push_all(&mut vfs, "vfs");
    FsStats {
        device: p.device.clone(),
        fs_type: vfs,
        limit: u.capacity,
        usage: du_bytes,
        base_usage: du_bytes,
        available: u.available,
        has_inodes: true,
        inodes: u.inodes,
        inodes_free: u.inodes_free,
        reads_completed: 0,
        reads_merged: 0,
        sectors_read: 0,
        read_time: 0,
        writes_completed: 0,
        writes_merged: 0,
        sectors_written: 0,
        write_time: 0,
        io_in_progress: 0,
        io_time: 0,
        weighted_io_time: 0,
    }
}

// ---------------------------------------------------------------------------
// v1 lookups
// ---------------------------------------------------------------------------

/// The containers of `name`'s subtree, sorted, or the unknown container.
pub fn subcontainer_names(names: &Vec<String>, name: &str) -> (r: Result<Vec<String>, ManagerError>)
    ensures
        match r {
            Ok(v) => names@.map_values(|s: String| s@).contains(name@)
                && v@.map_values(|s: String| s@) == sort_by(subtree_names(names@.map_values(|s: String| s@), name@), text_lt()),
            Err(e) => !names@.map_values(|s: String| s@).contains(name@)
                && (e matches ManagerError::UnknownContainer(n) && n@ == name@),
        },
{
    let ghost nv = names@.map_values(|s: String| s@);
    if !crate::metrics::contains_str(names, name) {
        proof {
            if nv.contains(name@) {
                let k = choose|k: int| 0 <= k < nv.len() && nv[k] == name@;
                assert(names@[k]@ == name@);
            }
        }
        let mut n = String::new();
        push_all(&mut n, name);
        return Err(ManagerError::UnknownContainer(n));
    }
    proof {
        let k = choose|k: int| 0 <= k < names@.len() && #[trigger] names@[k]@ == name@;
        assert(nv[k] == name@);
    }
    Ok(subtree(names, name))
}

/// The containers a v1 `docker` request finds: those with runtime
/// metadata matching `id` (all of them for an empty `id`), in order; for
/// a non-empty `id` without any, the unknown container.
pub fn docker_lookup(names: &Vec<String>, refs: &Vec<ContainerReference>, id: &str) -> (r: Result<Vec<String>, ManagerError>)
    requires
        refs@.len() == names@.len(),
    ensures
        match r {
            Ok(v) => v@.map_values(|s: String| s@) == crate::api::runtime_found(names@.map_values(|s: String| s@), refs@, id@)
                && (v@.len() > 0 || id@.len() == 0),
            Err(e) => crate::api::runtime_found(names@.map_values(|s: String| s@), refs@, id@).len() == 0 && id@.len() > 0
                && (e matches ManagerError::UnknownContainer(n) && n@ == id@),
        },
{
    let ghost nv = names@.map_values(|s: String| s@);
    let mut found: Vec<String> = Vec::new();
    let mut i: usize = 0;
    while i < names.len()
        invariant
            i <= names@.len() == refs@.len(),
            nv == names@.map_values(|s: String| s@),
            found@.map_values(|s: String| s@) == crate::api::runtime_found(nv.take(i as int), refs@.take(i as int), id@),
        decreases names.len() - i,
    {
        assert(nv.take(i + 1).drop_last() =~= nv.take(i as int));
        assert(refs@.take(i + 1).take(i as int) =~= refs@.take(i as int));
        let ghost before = found@;
        if runtime_match(&refs[i], id) {
            found.push(names[i].clone());
            assert(found@.map_values(|s: String| s@) =~= before.map_values(|s: String| s@).push(names@[i as int]@));
        }
        i += 1;
    }
    assert(nv.take(names@.len() as int) =~= nv);
    assert(refs@.take(names@.len() as int) =~= refs@);
    if found.len() == 0 && !id.is_empty() {
        let mut n = String::new();
        push_all(&mut n, id);
        return Err(ManagerError::UnknownContainer(n));
    }
    Ok(found)
}

} // verus!
