//! cgroup-v2 data plane: a container's spec and stats assembled from the
//! text of its cgroup files (read by the program around the library), the
//! cgroup directory layout, and host errors.

use vstd::prelude::*;

use crate::model::{CPUSetStats, ContainerStats, CpuCFS, CpuSchedstat, CpuStats, CpuUsage, DiskIoStats, GoTime, InterfaceStats, LoadStats, MemoryNumaStats, MemoryStats, MemoryStatsMemoryData, NetworkStats, PerDiskStats, ProcessStats, ResctrlStats, TcpAdvancedStat, TcpStat, UdpStat, tcp_advanced_zero, tcp_zero, udp_zero};
use crate::parse::{cpu_max_of, cpu_stat_of, io_stat_of, memory_stat_of, parse_cpu_max, parse_cpu_stat, parse_io_stat, parse_memory_stat, parse_u64_or_max, u64_or_max, weight_in_range, weight_to_shares, cpu_weight_to_shares, IoDevStat};
use crate::text::{chars_of, find_char, lines, parse_radix, parse_unsigned, push_all, push_char, split_once_char, split_once_in, string_of, trim, trim_range};

verus! {

/// The name of a child cgroup: the parent's name (nothing for the root)
/// and the directory entry, joined by `/`.
pub open spec fn child_cgroup_spec(parent: Seq<char>, entry: Seq<char>) -> Seq<char> {
    (if parent == seq!['/'] {
        Seq::empty()
    } else {
        parent
    }) + seq!['/'] + entry
}

pub fn child_cgroup(parent: &str, entry: &str) -> (r: String)
    ensures
        r@ == child_cgroup_spec(parent@, entry@),
{
    let mut r = String::new();
    proof {
        reveal_strlit("/");
        assert("/"@ =~= seq!['/']);
    }
    if !crate::order::str_eq(parent, "/") {
        push_all(&mut r, parent);
    }
    push_char(&mut r, '/');
    push_all(&mut r, entry);
    r
}

/// The cgroup-v2 mountpoint.
/// The cgroup tree changes the watcher reports, by absolute cgroup name.
#[derive(Debug, Clone, PartialEq, Eq)]
pub enum CgroupEvent {
    Added(String),
    Removed(String),
}

/// `path` relative to the tree's `root` (itself where it is not under
/// `root`), as an absolute cgroup name.
pub open spec fn cgroup_name_spec(root: Seq<char>, path: Seq<char>) -> Seq<char> {
    seq!['/'] + if path == root {
        Seq::empty()
    } else if path.len() > root.len() && path.take(root.len() as int) == root && path[root.len() as int] == '/' {
        path.skip(root.len() as int + 1)
    } else {
        path
    }
}

/// The cgroup name of a directory `path` of the tree mounted at `root`.
pub fn cgroup_name(root: &str, path: &str) -> (r: String)
    ensures
        r@ == cgroup_name_spec(root@, path@),
{
    let rv = chars_of(root);
    let pv = chars_of(path);
    let mut r = String::new();
    push_char(&mut r, '/');
    if crate::order::str_eq(root, path) {
        assert(r@ =~= cgroup_name_spec(root@, path@));
        return r;
    }
    let n = rv.len();
    let mut under = pv.len() > n && pv[n] == '/';
    let mut i: usize = 0;
    while i < n && under
        invariant
            i <= n == rv@.len(),
            rv@ == root@,
            pv@ == path@,
            under ==> pv@.len() > n && pv@[n as int] == '/' && forall|k: int| 0 <= k < i ==> pv@[k] == rv@[k],
            !under ==> !(pv@.len() > n && pv@.take(n as int) == rv@ && pv@[n as int] == '/'),
        decreases n - i,
    {
        if pv[i] != rv[i] {
            assert(pv@.take(n as int)[i as int] != rv@[i as int]);
            under = false;
        }
        i += 1;
    }
    if under {
        assert(pv@.take(n as int) =~= rv@);
        let rel = string_of(&pv, n + 1, pv.len());
        assert(pv@.subrange(n + 1, pv@.len() as int) =~= pv@.skip(n + 1));
        push_all(&mut r, rel.as_str());
    } else {
        let rel = string_of(&pv, 0, pv.len());
        assert(pv@.subrange(0, pv@.len() as int) =~= pv@);
        push_all(&mut r, rel.as_str());
    }
    r
}

pub const UNIFIED_MOUNTPOINT: &'static str = "/sys/fs/cgroup";

/// An error of the host data plane.
pub enum HostError {
    /// Reading `path` failed; `not_found` when the file does not exist.
    Io { path: String, not_found: bool, message: String },
    /// Text that could not be parsed.
    Parse { what: String, detail: String },
}

impl HostError {
    pub fn io(path: &str, not_found: bool, message: String) -> (e: HostError)
        ensures
            e matches HostError::Io { path: p, not_found: nf, message: m } && p@ == path@ && nf == not_found && m@ == message@,
    {
        let mut p = String::new();
        push_all(&mut p, path);
        HostError::Io { path: p, not_found, message }
    }

    pub fn parse(what: &str, detail: String) -> (e: HostError)
        ensures
            e matches HostError::Parse { what: w, detail: d } && w@ == what@ && d@ == detail@,
    {
        let mut w = String::new();
        push_all(&mut w, what);
        HostError::Parse { what: w, detail }
    }

    /// Whether the cause is a missing file.
    pub fn is_not_found(&self) -> (b: bool)
        ensures
            b == (self matches HostError::Io { not_found: true, .. }),
    {
        match self {
            HostError::Io { not_found, .. } => *not_found,
            HostError::Parse { .. } => false,
        }
    }

    /// The error's text: `reading <path>: <cause>` or `parsing <what>: <detail>`.
    pub fn message(&self) -> (r: String)
        ensures
            r@ == match self {
                HostError::Io { path, message, .. } => "reading "@ + path@ + ": "@ + message@,
                HostError::Parse { what, detail } => "parsing "@ + what@ + ": "@ + detail@,
            },
    {
        let mut r = String::new();
        match self {
            HostError::Io { path, message, .. } => {
                push_all(&mut r, "reading ");
                push_all(&mut r, path.as_str());
                push_all(&mut r, ": ");
                push_all(&mut r, message.as_str());
            },
            HostError::Parse { what, detail } => {
                push_all(&mut r, "parsing ");
                push_all(&mut r, what.as_str());
                push_all(&mut r, ": ");
                push_all(&mut r, detail.as_str());
            },
        }
        r
    }
}

/// The text without its leading `/`s.
pub open spec fn trim_slash_start(s: Seq<char>) -> Seq<char>
    decreases s.len(),
{
    if s.len() > 0 && s[0] == '/' {
        trim_slash_start(s.drop_first())
    } else {
        s
    }
}

/// `root.join(rel)` for a relative `rel`: a `/` goes between them unless
/// `root` is empty or already ends in one.
pub open spec fn path_join(root: Seq<char>, rel: Seq<char>) -> Seq<char> {
    if root.len() > 0 && root.last() != '/' {
        root + seq!['/'] + rel
    } else {
        root + rel
    }
}

/// Reads a cgroup-v2 tree rooted at a mountpoint.
pub struct CgroupReader {
    pub root: String,
}

impl CgroupReader {
    pub fn new(root: &str) -> (r: CgroupReader)
        ensures
            r.root@ == root@,
    {
        let mut s = String::new();
        push_all(&mut s, root);
        CgroupReader { root: s }
    }

    /// A reader of the unified mountpoint.
    pub fn default_reader() -> (r: CgroupReader)
        ensures
            r.root@ == UNIFIED_MOUNTPOINT@,
    {
        CgroupReader::new(UNIFIED_MOUNTPOINT)
    }

    /// The directory of a cgroup (an absolute cgroup name like `/a/b`).
    pub fn dir(&self, cgroup: &str) -> (p: String)
        ensures
            p@ == path_join(self.root@, trim_slash_start(cgroup@)),
    {
        let v = chars_of(cgroup);
        let mut a: usize = 0;
        assert(v@.skip(0) == v@);
        while a < v.len() && v[a] == '/'
            invariant
                a <= v@.len(),
                trim_slash_start(v@) == trim_slash_start(v@.skip(a as int)),
            decreases v.len() - a,
        {
            assert(v@.skip(a as int).drop_first() == v@.skip(a + 1));
            a += 1;
        }
        proof {
            if a < v@.len() {
                assert(v@.skip(a as int)[0] == v@[a as int]);
            }
        }
        let rel = string_of(&v, a, v.len());
        assert(rel@ == v@.skip(a as int));
        let r = chars_of(self.root.as_str());
        let mut p = String::new();
        push_all(&mut p, self.root.as_str());
        if r.len() > 0 && r[r.len() - 1] != '/' {
            push_char(&mut p, '/');
        }
        push_all(&mut p, rel.as_str());
        p
    }

    /// The path of `file` in a cgroup's directory.
    pub fn file(&self, cgroup: &str, file: &str) -> (p: String)
        ensures
            p@ == path_join(path_join(self.root@, trim_slash_start(cgroup@)), file@),
    {
        let d = self.dir(cgroup);
        let r = chars_of(d.as_str());
        let mut p = String::new();
        push_all(&mut p, d.as_str());
        if r.len() > 0 && r[r.len() - 1] != '/' {
            push_char(&mut p, '/');
        }
        push_all(&mut p, file);
        p
    }
}

/// The PIDs listed in `cgroup.procs` (lines that are not a PID are skipped).
pub open spec fn procs_of(ls: Seq<Seq<char>>) -> Seq<u32>
    decreases ls.len(),
{
    if ls.len() == 0 {
        Seq::empty()
    } else {
        procs_of(ls.drop_last()) + match parse_unsigned(trim(ls.last()), 10, u32::MAX as int) {
            Some(p) => seq![p as u32],
            None => Seq::empty(),
        }
    }
}

/// Parses `cgroup.procs`.
pub fn parse_procs(content: &str) -> (r: Vec<u32>)
    ensures
        r@ == procs_of(lines(content@)),
{
    let (v, ls) = crate::parse::lines_of(content);
    let ghost l = lines(content@);
    let mut out: Vec<u32> = Vec::new();
    let mut i: usize = 0;
    while i < ls.len()
        invariant
            i <= ls@.len() == l.len(),
            l == lines(content@),
            forall|j: int| 0 <= j < ls@.len() ==> #[trigger] ls@[j].0 <= ls@[j].1 <= v@.len(),
            forall|j: int| 0 <= j < ls@.len() ==> #[trigger] v@.subrange(ls@[j].0 as int, ls@[j].1 as int) == l[j],
            out@ == procs_of(l.take(i as int)),
        decreases ls.len() - i,
    {
        assert(l.take(i + 1).drop_last() == l.take(i as int));
        let (lo, hi) = ls[i];
        let (a, b) = trim_range(&v, lo, hi);
        match parse_radix(&v, a, b, 10, u32::MAX as u64) {
            Some(p) => {
                out.push(p as u32);
            },
            None => {},
        }
        assert(out@ =~= procs_of(l.take(i + 1)));
        i += 1;
    }
    assert(l.take(l.len() as int) == l);
    out
}

/// The text of a container's stat files as read; `None` for a file that
/// does not exist.
pub struct StatsFiles {
    pub cpu_stat: Option<String>,
    pub memory_current: Option<String>,
    pub memory_peak: Option<String>,
    pub memory_swap_current: Option<String>,
    pub memory_stat: Option<String>,
    pub memory_events: Option<String>,
    pub io_stat: Option<String>,
}

/// `file.map(parse_u64_or_max).unwrap_or(0)`.
pub open spec fn opt_u64_or_max(f: Option<String>) -> u64 {
    match f {
        Some(t) => u64_or_max(t@),
        None => 0,
    }
}

/// The `oom_kill` count of `memory.events` (the last such line; a
/// malformed count reads as 0).
pub open spec fn oom_kill_of(ls: Seq<Seq<char>>) -> u64
    decreases ls.len(),
{
    if ls.len() == 0 {
        0
    } else {
        match split_once_char(ls.last(), ' ') {
            Some((k, v)) if k == "oom_kill"@ => match parse_unsigned(trim(v), 10, u64::MAX as int) {
                Some(x) => x as u64,
                None => 0,
            },
            _ => oom_kill_of(ls.drop_last()),
        }
    }
}

/// A per-device I/O entry as values: device, major, minor, counters.
pub type DiskEntryV = (Seq<char>, u64, u64, Seq<(Seq<char>, u64)>);

pub open spec fn disk_entry_view(e: PerDiskStats) -> DiskEntryV {
    (e.device@, e.major, e.minor, Seq::new(e.stats@.len(), |i: int| (e.stats@[i].0@, e.stats@[i].1)))
}

pub open spec fn disk_entries_view(s: Seq<PerDiskStats>) -> Seq<DiskEntryV> {
    Seq::new(s.len(), |i: int| disk_entry_view(s[i]))
}

/// The `Read`/`Write` entries of `io.stat` rows: bytes, or operations.
pub open spec fn io_entries(devs: Seq<IoDevStat>, bytes: bool) -> Seq<DiskEntryV> {
    Seq::new(
        devs.len(),
        |i: int|
            (Seq::<char>::empty(), devs[i].major, devs[i].minor, seq![
                ("Read"@, if bytes {
                    devs[i].rbytes
                } else {
                    devs[i].rios
                }),
                ("Write"@, if bytes {
                    devs[i].wbytes
                } else {
                    devs[i].wios
                }),
            ]),
    )
}

/// The microsecond counters of `cpu.stat` fit in nanoseconds.
pub open spec fn cpu_stat_fits(f: Option<String>) -> bool {
    match f {
        Some(t) => {
            let c = cpu_stat_of(lines(t@));
            &&& c.usage_usec * 1000 <= u64::MAX
            &&& c.user_usec * 1000 <= u64::MAX
            &&& c.system_usec * 1000 <= u64::MAX
            &&& c.throttled_usec * 1000 <= u64::MAX
        },
        None => true,
    }
}

/// The sample the files give, taken at `ts`: cpu.stat microseconds as
/// nanoseconds; memory usage, peak and swap, cache/rss/mapped file from
/// memory.stat and the working set (usage less inactive file, at least 0);
/// oom kills; per-device bytes and operations from io.stat. Everything
/// else is zero or empty.
pub open spec fn stats_from(s: ContainerStats, f: StatsFiles, ts: GoTime) -> bool {
    &&& s.timestamp == ts
    &&& s.cpu.usage.per_cpu@.len() == 0
    &&& s.cpu.load_average == 0
    &&& s.cpu.schedstat.run_time == 0 && s.cpu.schedstat.runqueue_time == 0 && s.cpu.schedstat.run_periods == 0
    &&& match f.cpu_stat {
        Some(t) => {
            let c = cpu_stat_of(lines(t@));
            &&& s.cpu.usage.total == c.usage_usec * 1000
            &&& s.cpu.usage.user == c.user_usec * 1000
            &&& s.cpu.usage.system == c.system_usec * 1000
            &&& s.cpu.cfs.periods == c.nr_periods
            &&& s.cpu.cfs.throttled_periods == c.nr_throttled
            &&& s.cpu.cfs.throttled_time == c.throttled_usec * 1000
        },
        None => s.cpu.usage.total == 0 && s.cpu.usage.user == 0 && s.cpu.usage.system == 0 && s.cpu.cfs.periods == 0
            && s.cpu.cfs.throttled_periods == 0 && s.cpu.cfs.throttled_time == 0,
    }
    &&& s.memory.kernel_usage == 0 && s.memory.failcnt == 0
    &&& match f.memory_current {
        Some(ct) => {
            let cur = u64_or_max(ct@);
            &&& s.memory.usage == cur
            &&& s.memory.max_usage == opt_u64_or_max(f.memory_peak)
            &&& s.memory.swap == opt_u64_or_max(f.memory_swap_current)
            &&& match f.memory_stat {
                Some(st) => {
                    let m = memory_stat_of(lines(st@));
                    &&& s.memory.cache == m.file
                    &&& s.memory.rss == m.anon
                    &&& s.memory.mapped_file == m.file_mapped
                    &&& s.memory.working_set == (if cur > m.inactive_file { cur - m.inactive_file } else { 0 })
                    &&& s.memory.container_data.pgfault == m.pgfault
                    &&& s.memory.container_data.pgmajfault == m.pgmajfault
                    &&& s.memory.hierarchical_data.pgfault == m.pgfault
                    &&& s.memory.hierarchical_data.pgmajfault == m.pgmajfault
                },
                None => {
                    &&& s.memory.working_set == cur
                    &&& s.memory.cache == 0 && s.memory.rss == 0 && s.memory.mapped_file == 0
                    &&& s.memory.container_data.pgfault == 0 && s.memory.container_data.pgmajfault == 0
                    &&& s.memory.hierarchical_data.pgfault == 0 && s.memory.hierarchical_data.pgmajfault == 0
                },
            }
        },
        None => {
            &&& s.memory.usage == 0 && s.memory.max_usage == 0 && s.memory.swap == 0 && s.memory.working_set == 0
            &&& s.memory.cache == 0 && s.memory.rss == 0 && s.memory.mapped_file == 0
            &&& s.memory.container_data.pgfault == 0 && s.memory.container_data.pgmajfault == 0
            &&& s.memory.hierarchical_data.pgfault == 0 && s.memory.hierarchical_data.pgmajfault == 0
        },
    }
    &&& s.oom_events == match f.memory_events {
        Some(t) => oom_kill_of(lines(t@)),
        None => 0,
    }
    &&& disk_entries_view(s.disk_io.io_service_bytes@) == match f.io_stat {
        Some(t) => io_entries(io_stat_of(lines(t@)), true),
        None => Seq::empty(),
    }
    &&& disk_entries_view(s.disk_io.io_serviced@) == match f.io_stat {
        Some(t) => io_entries(io_stat_of(lines(t@)), false),
        None => Seq::empty(),
    }
    &&& s.disk_io.io_queued@.len() == 0 && s.disk_io.sectors@.len() == 0 && s.disk_io.io_service_time@.len() == 0
    &&& s.disk_io.io_wait_time@.len() == 0 && s.disk_io.io_merged@.len() == 0 && s.disk_io.io_time@.len() == 0
    &&& s.network.interfaces@.len() == 0
    &&& s.network.tcp == tcp_zero() && s.network.tcp6 == tcp_zero()
    &&& s.network.udp == udp_zero() && s.network.udp6 == udp_zero()
    &&& s.network.tcp_advanced == tcp_advanced_zero()
    &&& s.filesystem@.len() == 0
    &&& s.referenced_memory == 0
    &&& s.hugetlb@.len() == 0 && s.accelerators@.len() == 0 && s.processes.ulimits@.len() == 0
    &&& s.resctrl.memory_bandwidth@.len() == 0 && s.resctrl.cache@.len() == 0
}

fn oom_kill_count(content: &str) -> (r: u64)
    ensures
        r == oom_kill_of(lines(content@)),
{
    let (v, ls) = crate::parse::lines_of(content);
    let ghost l = lines(content@);
    let key = chars_of("oom_kill");
    let mut i = ls.len();
    assert(l.take(i as int) == l);
    while i > 0
        invariant
            i <= ls@.len() == l.len(),
            l == lines(content@),
            key@ == "oom_kill"@,
            forall|j: int| 0 <= j < ls@.len() ==> #[trigger] ls@[j].0 <= ls@[j].1 <= v@.len(),
            forall|j: int| 0 <= j < ls@.len() ==> #[trigger] v@.subrange(ls@[j].0 as int, ls@[j].1 as int) == l[j],
            oom_kill_of(l) == oom_kill_of(l.take(i as int)),
        decreases i,
    {
        let (lo, hi) = ls[i - 1];
        let ghost line = l[i - 1];
        assert(l.take(i as int).last() == line);
        assert(l.take(i as int).drop_last() == l.take(i - 1));
        assert(v@.subrange(lo as int, hi as int) == line);
        match split_once_in(&v, lo, hi, ' ') {
            Some(sp) => {
                assert(line.take(sp - lo) == v@.subrange(lo as int, sp as int));
                assert(line.skip(sp - lo + 1) == v@.subrange(sp + 1, hi as int));
                if crate::text::range_eq(&v, lo, sp, &key) {
                    let (a, b) = trim_range(&v, sp + 1, hi);
                    return match parse_radix(&v, a, b, 10, u64::MAX) {
                        Some(x) => x,
                        None => 0,
                    };
                }
            },
            None => {},
        }
        i -= 1;
    }
    0
}

fn entry(major: u64, minor: u64, r: u64, w: u64) -> (e: PerDiskStats)
    ensures
        disk_entry_view(e) == (Seq::<char>::empty(), major, minor, seq![("Read"@, r), ("Write"@, w)]),
{
    let mut stats: Vec<(String, u64)> = Vec::new();
    let mut rk = String::new();
    push_all(&mut rk, "Read");
    let mut wk = String::new();
    push_all(&mut wk, "Write");
    stats.push((rk, r));
    stats.push((wk, w));
    let e = PerDiskStats { device: String::new(), major, minor, stats };
    assert(disk_entry_view(e).3 =~= seq![("Read"@, r), ("Write"@, w)]);
    e
}

fn zero_interface() -> (r: InterfaceStats)
    ensures
        r.name@.len() == 0,
        r.rx_bytes == 0 && r.rx_packets == 0 && r.rx_errors == 0 && r.rx_dropped == 0,
        r.tx_bytes == 0 && r.tx_packets == 0 && r.tx_errors == 0 && r.tx_dropped == 0,
{
    InterfaceStats {
        name: String::new(),
        rx_bytes: 0,
        rx_packets: 0,
        rx_errors: 0,
        rx_dropped: 0,
        tx_bytes: 0,
        tx_packets: 0,
        tx_errors: 0,
        tx_dropped: 0,
    }
}

fn zero_tcp() -> (t: TcpStat)
    ensures
        t == tcp_zero(),
{
    TcpStat {
        established: 0,
        syn_sent: 0,
        syn_recv: 0,
        fin_wait1: 0,
        fin_wait2: 0,
        time_wait: 0,
        close: 0,
        close_wait: 0,
        last_ack: 0,
        listen: 0,
        closing: 0,
    }
}

fn no_numa() -> (n: MemoryNumaStats)
    ensures
        n.file@.len() == 0 && n.anon@.len() == 0 && n.unevictable@.len() == 0,
{
    MemoryNumaStats { file: Vec::new(), anon: Vec::new(), unevictable: Vec::new() }
}

fn zero_udp() -> (u: UdpStat)
    ensures
        u == udp_zero(),
{
    UdpStat { listen: 0, dropped: 0, rx_queued: 0, tx_queued: 0 }
}

/// One stats sample from a container's cgroup files, taken at `timestamp`.
/// (Network stats need the container's network namespace and are filled in
/// separately.)
pub fn stats_from_files(files: &StatsFiles, timestamp: GoTime) -> (s: ContainerStats)
    requires
        cpu_stat_fits(files.cpu_stat),
    ensures
        stats_from(s, *files, timestamp),
{
    let mut usage = CpuUsage { total: 0, per_cpu: Vec::new(), user: 0, system: 0 };
    let mut cfs = CpuCFS { periods: 0, throttled_periods: 0, throttled_time: 0 };
    match &files.cpu_stat {
        Some(t) => {
            let c = parse_cpu_stat(t.as_str());
            usage.total = c.usage_usec * 1000;
            usage.user = c.user_usec * 1000;
            usage.system = c.system_usec * 1000;
            cfs.periods = c.nr_periods;
            cfs.throttled_periods = c.nr_throttled;
            cfs.throttled_time = c.throttled_usec * 1000;
        },
        None => {},
    }
    let cpu = CpuStats {
        usage,
        cfs,
        schedstat: CpuSchedstat { run_time: 0, runqueue_time: 0, run_periods: 0 },
        load_average: 0,
    };
    let mut memory = MemoryStats {
        usage: 0,
        max_usage: 0,
        cache: 0,
        rss: 0,
        swap: 0,
        mapped_file: 0,
        working_set: 0,
        failcnt: 0,
        kernel_usage: 0,
        container_data: MemoryStatsMemoryData { pgfault: 0, pgmajfault: 0, numa_stats: no_numa() },
        hierarchical_data: MemoryStatsMemoryData { pgfault: 0, pgmajfault: 0, numa_stats: no_numa() },
    };
    match &files.memory_current {
        Some(ct) => {
            let current = parse_u64_or_max(ct.as_str());
            memory.usage = current;
            memory.max_usage = match &files.memory_peak {
                Some(t) => parse_u64_or_max(t.as_str()),
                None => 0,
            };
            memory.swap = match &files.memory_swap_current {
                Some(t) => parse_u64_or_max(t.as_str()),
                None => 0,
            };
            match &files.memory_stat {
                Some(st) => {
                    let m = parse_memory_stat(st.as_str());
                    memory.cache = m.file;
                    memory.rss = m.anon;
                    memory.mapped_file = m.file_mapped;
                    memory.working_set = if current > m.inactive_file {
                        current - m.inactive_file
                    } else {
                        0
                    };
                    memory.container_data.pgfault = m.pgfault;
                    memory.container_data.pgmajfault = m.pgmajfault;
                    memory.hierarchical_data.pgfault = m.pgfault;
                    memory.hierarchical_data.pgmajfault = m.pgmajfault;
                },
                None => {
                    memory.working_set = current;
                },
            }
        },
        None => {},
    }
    let oom_events = match &files.memory_events {
        Some(t) => oom_kill_count(t.as_str()),
        None => 0,
    };
    let mut bytes: Vec<PerDiskStats> = Vec::new();
    let mut ops: Vec<PerDiskStats> = Vec::new();
    match &files.io_stat {
        Some(t) => {
            let devs = parse_io_stat(t.as_str());
            let mut i: usize = 0;
            while i < devs.len()
                invariant
                    i <= devs@.len(),
                    bytes@.len() == i,
                    ops@.len() == i,
                    forall|k: int| 0 <= k < i ==> #[trigger] disk_entry_view(bytes@[k]) == io_entries(devs@, true)[k],
                    forall|k: int| 0 <= k < i ==> #[trigger] disk_entry_view(ops@[k]) == io_entries(devs@, false)[k],
                decreases devs.len() - i,
            {
                let d = &devs[i];
                bytes.push(entry(d.major, d.minor, d.rbytes, d.wbytes));
                ops.push(entry(d.major, d.minor, d.rios, d.wios));
                i += 1;
            }
            assert(disk_entries_view(bytes@) =~= io_entries(devs@, true));
            assert(disk_entries_view(ops@) =~= io_entries(devs@, false));
        },
        None => {
            assert(disk_entries_view(bytes@) =~= Seq::<DiskEntryV>::empty());
            assert(disk_entries_view(ops@) =~= Seq::<DiskEntryV>::empty());
        },
    }
    let disk_io = DiskIoStats {
        io_service_bytes: bytes,
        io_serviced: ops,
        io_queued: Vec::new(),
        sectors: Vec::new(),
        io_service_time: Vec::new(),
        io_wait_time: Vec::new(),
        io_merged: Vec::new(),
        io_time: Vec::new(),
    };
    let network = NetworkStats {
        interface: zero_interface(),
        interfaces: Vec::new(),
        tcp: zero_tcp(),
        tcp6: zero_tcp(),
        udp: zero_udp(),
        udp6: zero_udp(),
        tcp_advanced: TcpAdvancedStat::zero(),
    };
    ContainerStats {
        timestamp,
        cpu,
        disk_io,
        memory,
        network,
        hugetlb: Vec::new(),
        filesystem: Vec::new(),
        task_stats: LoadStats { nr_sleeping: 0, nr_running: 0, nr_stopped: 0, nr_uninterruptible: 0, nr_io_wait: 0 },
        accelerators: Vec::new(),
        processes: ProcessStats {
            process_count: 0,
            fd_count: 0,
            socket_count: 0,
            threads_current: 0,
            threads_max: 0,
            ulimits: Vec::new(),
        },
        referenced_memory: 0,
        resctrl: ResctrlStats { memory_bandwidth: Vec::new(), cache: Vec::new() },
        cpu_set: CPUSetStats { memory_migrate: 0 },
        oom_events,
    }
}

/// Spec-relevant facts of a cgroup directory.
pub struct CgroupSpec {
    pub creation_time: Option<GoTime>,
    pub has_cpu: bool,
    pub cpu_shares: u64,
    pub cpu_quota: Option<u64>,
    pub cpu_period: u64,
    pub cpu_mask: String,
    pub has_memory: bool,
    pub memory_limit: u64,
    pub swap_limit: u64,
    pub memory_reservation: u64,
    pub has_processes: bool,
    pub pids_limit: u64,
    pub has_disk_io: bool,
}

/// What a cgroup directory holds for its spec: its modification time, whether
/// `memory.max` exists, and the text of its limit files (`None`: absent).
pub struct SpecFiles {
    pub creation_time: Option<GoTime>,
    pub memory_max_exists: bool,
    pub cpu_weight: Option<String>,
    pub cpu_max: Option<String>,
    pub cpuset_effective: Option<String>,
    pub memory_max: Option<String>,
    pub memory_swap_max: Option<String>,
    pub memory_low: Option<String>,
    pub pids_max: Option<String>,
}

/// `cpu.weight` converts to shares without overflow.
pub open spec fn weight_fits(f: Option<String>) -> bool {
    match f {
        Some(t) => weight_in_range(u64_or_max(t@)),
        None => true,
    }
}

/// The spec of a cgroup: CPU, processes and disk I/O always (the unified
/// hierarchy has them for every cgroup), memory when `memory.max` exists or
/// for the root; shares from `cpu.weight`, quota and period from `cpu.max`,
/// the effective cpuset, memory and pids limits (`max`: `u64::MAX`; absent:
/// 0).
pub open spec fn spec_from(r: CgroupSpec, f: SpecFiles, cgroup: Seq<char>) -> bool {
    &&& r.creation_time == f.creation_time
    &&& r.has_cpu && r.has_processes && r.has_disk_io
    &&& r.has_memory == (f.memory_max_exists || cgroup == seq!['/'])
    &&& r.cpu_shares == match f.cpu_weight {
        Some(t) => weight_to_shares(u64_or_max(t@)),
        None => 0,
    }
    &&& (r.cpu_quota, r.cpu_period) == match f.cpu_max {
        Some(t) => cpu_max_of(t@),
        None => (None, 0),
    }
    &&& r.cpu_mask@ == match f.cpuset_effective {
        Some(t) => trim(t@),
        None => Seq::empty(),
    }
    &&& r.memory_limit == opt_u64_or_max(f.memory_max)
    &&& r.swap_limit == opt_u64_or_max(f.memory_swap_max)
    &&& r.memory_reservation == opt_u64_or_max(f.memory_low)
    &&& r.pids_limit == opt_u64_or_max(f.pids_max)
}

fn opt_max(f: &Option<String>) -> (r: u64)
    ensures
        r == opt_u64_or_max(*f),
{
    match f {
        Some(t) => parse_u64_or_max(t.as_str()),
        None => 0,
    }
}

/// The spec of a cgroup from what its directory holds.
pub fn spec_from_files(files: &SpecFiles, cgroup: &str) -> (r: CgroupSpec)
    requires
        weight_fits(files.cpu_weight),
    ensures
        spec_from(r, *files, cgroup@),
{
    let root = crate::order::str_eq(cgroup, "/");
    proof {
        reveal_strlit("/");
        assert("/"@ =~= seq!['/']);
    }
    let cpu_shares = match &files.cpu_weight {
        Some(t) => cpu_weight_to_shares(parse_u64_or_max(t.as_str())),
        None => 0,
    };
    let (cpu_quota, cpu_period) = match &files.cpu_max {
        Some(t) => parse_cpu_max(t.as_str()),
        None => (None, 0),
    };
    let cpu_mask = match &files.cpuset_effective {
        Some(t) => {
            let v = chars_of(t.as_str());
            let (a, b) = trim_range(&v, 0, v.len());
            assert(v@.subrange(0, v@.len() as int) == v@);
            string_of(&v, a, b)
        },
        None => String::new(),
    };
    CgroupSpec {
        creation_time: files.creation_time,
        has_cpu: true,
        cpu_shares,
        cpu_quota,
        cpu_period,
        cpu_mask,
        has_memory: files.memory_max_exists || root,
        memory_limit: opt_max(&files.memory_max),
        swap_limit: opt_max(&files.memory_swap_max),
        memory_reservation: opt_max(&files.memory_low),
        has_processes: true,
        pids_limit: opt_max(&files.pids_max),
        has_disk_io: true,
    }
}

} // verus!
