//! Wire-level statistics types shared by the parsers and the stats logic
//! (the cAdvisor v1 API shapes, without their serialization).

use vstd::prelude::*;

use crate::text::{digit_char, push_all, push_char};

verus! {

#[derive(Debug, Clone, Default, PartialEq)]
pub struct InterfaceStats {
    pub name: String,
    pub rx_bytes: u64,
    pub rx_packets: u64,
    pub rx_errors: u64,
    pub rx_dropped: u64,
    pub tx_bytes: u64,
    pub tx_packets: u64,
    pub tx_errors: u64,
    pub tx_dropped: u64,
}

/// TCP connection counts by state.
#[derive(Debug, Clone, Copy, Default, PartialEq, Eq)]
pub struct TcpStat {
    pub established: u64,
    pub syn_sent: u64,
    pub syn_recv: u64,
    pub fin_wait1: u64,
    pub fin_wait2: u64,
    pub time_wait: u64,
    pub close: u64,
    pub close_wait: u64,
    pub last_ack: u64,
    pub listen: u64,
    pub closing: u64,
}


/// Advanced TCP counters (`/proc/net/netstat` and `/proc/net/snmp`).
#[derive(Debug, Clone, Copy, Default, PartialEq, Eq)]
pub struct TcpAdvancedStat {
    pub rto_algorithm: u64,
    pub rto_min: u64,
    pub rto_max: u64,
    pub max_conn: i64,
    pub active_opens: u64,
    pub passive_opens: u64,
    pub attempt_fails: u64,
    pub estab_resets: u64,
    pub curr_estab: u64,
    pub in_segs: u64,
    pub out_segs: u64,
    pub retrans_segs: u64,
    pub in_errs: u64,
    pub out_rsts: u64,
    pub in_csum_errors: u64,
    pub embryonic_rsts: u64,
    pub syncookies_sent: u64,
    pub syncookies_recv: u64,
    pub syncookies_failed: u64,
    pub prune_called: u64,
    pub rcv_pruned: u64,
    pub ofo_pruned: u64,
    pub out_of_window_icmps: u64,
    pub lock_dropped_icmps: u64,
    pub tw: u64,
    pub tw_recycled: u64,
    pub tw_killed: u64,
    pub tcp_time_wait_overflow: u64,
    pub tcp_timeouts: u64,
    pub tcp_spurious_rtos: u64,
    pub tcp_loss_probes: u64,
    pub tcp_loss_probe_recovery: u64,
    pub tcp_reno_recovery_fail: u64,
    pub tcp_sack_recovery_fail: u64,
    pub tcp_reno_failures: u64,
    pub tcp_sack_failures: u64,
    pub tcp_loss_failures: u64,
    pub delayed_acks: u64,
    pub delayed_ack_locked: u64,
    pub delayed_ack_lost: u64,
    pub listen_overflows: u64,
    pub listen_drops: u64,
    pub tcp_hp_hits: u64,
    pub tcp_pure_acks: u64,
    pub tcp_hp_acks: u64,
    pub tcp_reno_recovery: u64,
    pub tcp_sack_recovery: u64,
    pub tcp_sack_reneging: u64,
    pub tcp_fack_reorder: u64,
    pub tcp_sack_reorder: u64,
    pub tcp_reno_reorder: u64,
    pub tcp_ts_reorder: u64,
    pub tcp_full_undo: u64,
    pub tcp_partial_undo: u64,
    pub tcp_dsack_undo: u64,
    pub tcp_loss_undo: u64,
    pub tcp_fast_retrans: u64,
    pub tcp_slow_start_retrans: u64,
    pub tcp_lost_retransmit: u64,
    pub tcp_retrans_fail: u64,
    pub tcp_rcv_collapsed: u64,
    pub tcp_dsack_old_sent: u64,
    pub tcp_dsack_ofo_sent: u64,
    pub tcp_dsack_recv: u64,
    pub tcp_dsack_ofo_recv: u64,
    pub tcp_abort_on_data: u64,
    pub tcp_abort_on_close: u64,
    pub tcp_abort_on_memory: u64,
    pub tcp_abort_on_timeout: u64,
    pub tcp_abort_on_linger: u64,
    pub tcp_abort_failed: u64,
    pub tcp_memory_pressures: u64,
    pub tcp_memory_pressures_chrono: u64,
    pub tcp_sack_discard: u64,
    pub tcp_dsack_ignored_old: u64,
    pub tcp_dsack_ignored_no_undo: u64,
    pub tcp_md5_not_found: u64,
    pub tcp_md5_unexpected: u64,
    pub tcp_md5_failure: u64,
    pub tcp_sack_shifted: u64,
    pub tcp_sack_merged: u64,
    pub tcp_sack_shift_fallback: u64,
    pub tcp_backlog_drop: u64,
    pub pf_memalloc_drop: u64,
    pub tcp_min_ttl_drop: u64,
    pub tcp_defer_accept_drop: u64,
    pub ip_reverse_path_filter: u64,
    pub tcp_req_q_full_do_cookies: u64,
    pub tcp_req_q_full_drop: u64,
    pub tcp_fast_open_active: u64,
    pub tcp_fast_open_active_fail: u64,
    pub tcp_fast_open_passive: u64,
    pub tcp_fast_open_passive_fail: u64,
    pub tcp_fast_open_listen_overflow: u64,
    pub tcp_fast_open_cookie_reqd: u64,
    pub tcp_syn_retrans: u64,
    pub tcp_orig_data_sent: u64,
    pub paws_active: u64,
    pub paws_estab: u64,
}

#[derive(Debug, Clone, Copy, Default, PartialEq, Eq)]
pub struct UdpStat {
    pub listen: u64,
    pub dropped: u64,
    pub rx_queued: u64,
    pub tx_queued: u64,
}

} // verus!

verus! {

/// A UTC instant: whole seconds since the Unix epoch and nanoseconds.
/// Instants are ordered by their total nanoseconds (`ns`).
#[derive(Debug, Clone, Copy, PartialEq, Eq, Hash)]
pub struct GoTime {
    pub secs: i64,
    pub nanos: u32,
}

/// Seconds from the Unix epoch back to Go's zero time, 0001-01-01T00:00:00Z.
pub const GO_ZERO_SECS: i64 = -62135596800;

/// The earliest whole second a chrono UTC date-time holds (-262143-01-01T00:00:00Z).
pub const CHRONO_MIN_SECS: i64 = -8334601315200;

/// The latest whole second a chrono UTC date-time holds (+262142-12-31T23:59:59Z).
pub const CHRONO_MAX_SECS: i64 = 8210266876799;

impl GoTime {
    pub open spec fn ns(self) -> int {
        self.secs * 1_000_000_000 + self.nanos
    }

    /// An instant that a UTC date-time can hold, outside any leap second.
    pub open spec fn valid(self) -> bool {
        &&& CHRONO_MIN_SECS <= self.secs <= CHRONO_MAX_SECS
        &&& self.nanos < 1_000_000_000
    }

    pub open spec fn spec_is_zero(&self) -> bool {
        self.secs == GO_ZERO_SECS && self.nanos == 0
    }

    /// Go's zero time.
    pub fn zero() -> (t: GoTime)
        ensures
            t.spec_is_zero(),
    {
        GoTime { secs: GO_ZERO_SECS, nanos: 0 }
    }

    #[verifier::when_used_as_spec(spec_is_zero)]
    pub fn is_zero(&self) -> (b: bool)
        ensures
            b == self.spec_is_zero(),
    {
        self.secs == GO_ZERO_SECS && self.nanos == 0
    }

    /// Total nanoseconds since the epoch.
    pub fn total_nanos(&self) -> (n: i128)
        ensures
            n == self.ns(),
    {
        assert(-0x8000_0000_0000_0000 * 1_000_000_000 <= self.secs * 1_000_000_000
            <= 0x7fff_ffff_ffff_ffff * 1_000_000_000) by (nonlinear_arith)
            requires
                -0x8000_0000_0000_0000 <= self.secs <= 0x7fff_ffff_ffff_ffff,
        ;
        self.secs as i128 * 1_000_000_000 + self.nanos as i128
    }

    /// `self < other`.
    pub fn before(&self, other: &GoTime) -> (b: bool)
        ensures
            b == (self.ns() < other.ns()),
    {
        self.total_nanos() < other.total_nanos()
    }

    /// `self <= other`.
    pub fn not_after(&self, other: &GoTime) -> (b: bool)
        ensures
            b == (self.ns() <= other.ns()),
    {
        self.total_nanos() <= other.total_nanos()
    }
}

/// The last `width` decimal digits of `n`, zero-padded.
pub open spec fn padded(n: nat, width: nat) -> Seq<char>
    decreases width,
{
    if width == 0 {
        Seq::empty()
    } else {
        padded(n / 10, (width - 1) as nat).push(digit_char((n % 10) as int))
    }
}

/// The text without its trailing zeros.
pub open spec fn trim_zeros(s: Seq<char>) -> Seq<char>
    decreases s.len(),
{
    if s.len() > 0 && s.last() == '0' {
        trim_zeros(s.drop_last())
    } else {
        s
    }
}

/// Go's `RFC3339Nano` text of an instant given its civil date-time text:
/// the fraction of a second only where it is not zero, without trailing
/// zeros, then `Z`.
pub open spec fn rfc3339_text(civil: Seq<char>, nanos: u32) -> Seq<char> {
    civil + (if nanos > 0 {
        seq!['.'] + trim_zeros(padded(nanos as nat, 9))
    } else {
        Seq::empty()
    }) + seq!['Z']
}

pub open spec fn pow10(w: nat) -> nat
    decreases w,
{
    if w == 0 {
        1
    } else {
        10 * pow10((w - 1) as nat)
    }
}

proof fn lemma_padded_nonzero(n: nat, w: nat)
    requires
        0 < n < pow10(w),
    ensures
        padded(n, w).len() == w,
        exists|i: int| 0 <= i < w && #[trigger] padded(n, w)[i] != '0',
    decreases w,
{
    lemma_padded_len(n, w);
    let d = n % 10;
    if d != 0 {
        assert(padded(n, w)[w - 1] == digit_char(d as int));
        assert(digit_char(d as int) != '0');
    } else {
        assert(n / 10 < pow10((w - 1) as nat)) by (nonlinear_arith)
            requires
                n < pow10(w),
                pow10(w) == 10 * pow10((w - 1) as nat),
        ;
        assert(n / 10 > 0);
        lemma_padded_nonzero(n / 10, (w - 1) as nat);
        let i = choose|i: int| 0 <= i < w - 1 && #[trigger] padded(n / 10, (w - 1) as nat)[i] != '0';
        assert(padded(n, w)[i] == padded(n / 10, (w - 1) as nat)[i]);
    }
}

proof fn lemma_padded_len(n: nat, w: nat)
    ensures
        padded(n, w).len() == w,
    decreases w,
{
    if w > 0 {
        lemma_padded_len(n / 10, (w - 1) as nat);
    }
}

proof fn lemma_trim_zeros(s: Seq<char>)
    ensures
        trim_zeros(s).len() <= s.len(),
        forall|i: int| 0 <= i < trim_zeros(s).len() ==> #[trigger] trim_zeros(s)[i] == s[i],
        forall|i: int| trim_zeros(s).len() <= i < s.len() ==> #[trigger] s[i] == '0',
        trim_zeros(s).len() > 0 ==> trim_zeros(s).last() != '0',
    decreases s.len(),
{
    if s.len() > 0 && s.last() == '0' {
        let u = s.drop_last();
        lemma_trim_zeros(u);
        assert forall|i: int| trim_zeros(s).len() <= i < s.len() implies #[trigger] s[i] == '0' by {
            if i < u.len() {
                assert(u[i] == s[i]);
            }
        }
        assert forall|i: int| 0 <= i < trim_zeros(s).len() implies #[trigger] trim_zeros(s)[i] == s[i] by {
            assert(u[i] == s[i]);
        }
    }
}

/// The text of an instant ends in `Z`; a whole second has no fraction;
/// otherwise the fraction after the `.` has digits and no trailing zero.
pub proof fn lemma_rfc3339_fraction(civil: Seq<char>, nanos: u32)
    requires
        nanos < 1_000_000_000,
    ensures
        rfc3339_text(civil, nanos).last() == 'Z',
        nanos == 0 ==> rfc3339_text(civil, nanos) == civil + seq!['Z'],
        nanos > 0 ==> {
            let f = trim_zeros(padded(nanos as nat, 9));
            &&& rfc3339_text(civil, nanos) == civil + seq!['.'] + f + seq!['Z']
            &&& f.len() > 0
            &&& f.last() != '0'
        },
{
    if nanos == 0 {
        assert(rfc3339_text(civil, nanos) =~= civil + seq!['Z']);
    } else {
        let p = padded(nanos as nat, 9);
        assert(pow10(9) == 1_000_000_000) by {
            reveal_with_fuel(pow10, 10);
        }
        lemma_padded_nonzero(nanos as nat, 9);
        lemma_trim_zeros(p);
        let f = trim_zeros(p);
        let i = choose|i: int| 0 <= i < 9 && #[trigger] p[i] != '0';
        assert(f.len() > i);
        assert(rfc3339_text(civil, nanos) =~= civil + seq!['.'] + f + seq!['Z']);
    }
}

/// chrono's `%Y-%m-%dT%H:%M:%S` text of the UTC instant `secs` seconds
/// after the Unix epoch.
pub uninterp spec fn civil_text(secs: i64) -> Seq<char>;

/// The civil date-time of a whole second, as chrono formats it
/// (`DateTime::from_timestamp` then `format`); the text is claimed to be
/// the named one of the second.
#[verifier::external_body]
fn civil_seconds(secs: i64) -> (r: String)
    requires
        CHRONO_MIN_SECS <= secs <= CHRONO_MAX_SECS,
    ensures
        r@ == civil_text(secs),
{
    chrono::DateTime::<chrono::Utc>::from_timestamp(secs, 0).unwrap().format("%Y-%m-%dT%H:%M:%S").to_string()
}

/// The instant's text given its civil date-time text (see `rfc3339_text`).
pub fn rfc3339_from(civil: &str, nanos: u32) -> (r: String)
    ensures
        r@ == rfc3339_text(civil@, nanos),
{
    let mut r = String::new();
    push_all(&mut r, civil);
    if nanos > 0 {
        let mut digits: Vec<char> = Vec::new();
        let mut k: usize = 0;
        let mut n: u32 = nanos;
        let ghost mut tail: Seq<char> = Seq::empty();
        while k < 9
            invariant
                k <= 9,
                digits@ == tail,
                padded(nanos as nat, 9) == padded(n as nat, (9 - k) as nat) + tail,
            decreases 9 - k,
        {
            let d = (n % 10) as u8;
            let c = (48 + d) as char;
            proof {
                assert(padded(n as nat, (9 - k) as nat) == padded((n / 10) as nat, (9 - k - 1) as nat).push(digit_char((n % 10) as int)));
                assert(c == digit_char((n % 10) as int));
                tail = seq![c] + tail;
                assert(padded((n / 10) as nat, (9 - k - 1) as nat).push(c) + tail.drop_first() =~= padded((n / 10) as nat, (9 - k - 1) as nat) + tail);
            }
            digits.insert(0, c);
            n = n / 10;
            k += 1;
        }
        assert(padded(n as nat, 0) =~= Seq::<char>::empty());
        assert(digits@ =~= padded(nanos as nat, 9));
        let mut end = digits.len();
        assert(digits@.take(end as int) =~= digits@);
        while end > 0 && digits[end - 1] == '0'
            invariant
                end <= digits@.len(),
                trim_zeros(digits@) == trim_zeros(digits@.take(end as int)),
            decreases end,
        {
            assert(digits@.take(end as int).drop_last() =~= digits@.take(end - 1));
            end -= 1;
        }
        push_char(&mut r, '.');
        let frac = crate::text::string_of(&digits, 0, end);
        assert(frac@ == digits@.take(end as int));
        push_all(&mut r, frac.as_str());
    }
    push_char(&mut r, 'Z');
    r
}

impl GoTime {
    /// Go's `RFC3339Nano` text of the instant, always with a `Z` offset.
    pub fn to_rfc3339_nano(&self) -> (r: String)
        requires
            self.valid(),
        ensures
            r@ == rfc3339_text(civil_text(self.secs), self.nanos),
    {
        let civil = civil_seconds(self.secs);
        rfc3339_from(civil.as_str(), self.nanos)
    }
}

impl Default for GoTime {
    fn default() -> (t: GoTime)
        ensures
            t.spec_is_zero(),
    {
        GoTime::zero()
    }
}

/// A non-negative span of time, as `std::time::Duration` holds it.
#[derive(Debug, Clone, Copy, PartialEq, Eq, Default)]
pub struct Span {
    pub secs: u64,
    pub nanos: u32,
}

#[derive(Debug, Clone, Default, PartialEq)]
pub struct CpuUsage {
    pub total: u64,
    pub per_cpu: Vec<u64>,
    pub user: u64,
    pub system: u64,
}

#[derive(Debug, Clone, Copy, Default, PartialEq, Eq)]
pub struct CpuCFS {
    pub periods: u64,
    pub throttled_periods: u64,
    pub throttled_time: u64,
}

#[derive(Debug, Clone, Copy, Default, PartialEq, Eq)]
pub struct CpuSchedstat {
    pub run_time: u64,
    pub runqueue_time: u64,
    pub run_periods: u64,
}

#[derive(Debug, Clone, Default, PartialEq)]
pub struct CpuStats {
    pub usage: CpuUsage,
    pub cfs: CpuCFS,
    pub schedstat: CpuSchedstat,
    pub load_average: i32,
}

/// Per-device counters keyed by operation name, in key order.
#[derive(Debug, Clone, Default, PartialEq)]
pub struct PerDiskStats {
    pub device: String,
    pub major: u64,
    pub minor: u64,
    pub stats: Vec<(String, u64)>,
}

#[derive(Debug, Clone, Default, PartialEq)]
pub struct DiskIoStats {
    pub io_service_bytes: Vec<PerDiskStats>,
    pub io_serviced: Vec<PerDiskStats>,
    pub io_queued: Vec<PerDiskStats>,
    pub sectors: Vec<PerDiskStats>,
    pub io_service_time: Vec<PerDiskStats>,
    pub io_wait_time: Vec<PerDiskStats>,
    pub io_merged: Vec<PerDiskStats>,
    pub io_time: Vec<PerDiskStats>,
}

#[derive(Debug, Clone, Default, PartialEq)]
pub struct MemoryStatsMemoryData {
    pub pgfault: u64,
    pub pgmajfault: u64,
    pub numa_stats: MemoryNumaStats,
}

/// Per-NUMA-node page counts, each keyed by node number in key order.
#[derive(Debug, Clone, Default, PartialEq)]
pub struct MemoryNumaStats {
    pub file: Vec<(u8, u64)>,
    pub anon: Vec<(u8, u64)>,
    pub unevictable: Vec<(u8, u64)>,
}

#[derive(Debug, Clone, Copy, Default, PartialEq, Eq)]
pub struct HugetlbStats {
    pub usage: u64,
    pub max_usage: u64,
    pub failcnt: u64,
}

#[derive(Debug, Clone, Copy, Default, PartialEq, Eq)]
pub struct CPUSetStats {
    pub memory_migrate: u64,
}

#[derive(Debug, Clone, Default, PartialEq)]
pub struct AcceleratorStats {
    pub make: String,
    pub model: String,
    pub id: String,
    pub memory_total: u64,
    pub memory_used: u64,
    pub duty_cycle: u64,
}

#[derive(Debug, Clone, Copy, Default, PartialEq, Eq)]
pub struct MemoryBandwidthStats {
    pub total_bytes: u64,
    pub local_bytes: u64,
}

#[derive(Debug, Clone, Copy, Default, PartialEq, Eq)]
pub struct CacheStats {
    pub llc_occupancy: u64,
}

/// Resource-control monitoring counters.
#[derive(Debug, Clone, Default, PartialEq)]
pub struct ResctrlStats {
    pub memory_bandwidth: Vec<MemoryBandwidthStats>,
    pub cache: Vec<CacheStats>,
}

#[derive(Debug, Clone, Default, PartialEq)]
pub struct UlimitSpec {
    pub name: String,
    pub soft_limit: i64,
    pub hard_limit: i64,
}

/// A custom metric's declaration: name, kind (`gauge` or `cumulative`),
/// value format (`int` or `float`) and units.
#[derive(Debug, Clone, Default, PartialEq)]
pub struct MetricSpec {
    pub name: String,
    pub metric_type: String,
    pub format: String,
    pub units: String,
}

#[derive(Debug, Clone, Default, PartialEq)]
pub struct MemoryStats {
    pub usage: u64,
    pub max_usage: u64,
    pub cache: u64,
    pub rss: u64,
    pub swap: u64,
    pub mapped_file: u64,
    pub working_set: u64,
    pub failcnt: u64,
    pub kernel_usage: u64,
    pub container_data: MemoryStatsMemoryData,
    pub hierarchical_data: MemoryStatsMemoryData,
}

#[derive(Debug, Clone, Default, PartialEq)]
pub struct NetworkStats {
    /// The default interface (the first one read).
    pub interface: InterfaceStats,
    pub interfaces: Vec<InterfaceStats>,
    pub tcp: TcpStat,
    pub tcp6: TcpStat,
    pub udp: UdpStat,
    pub udp6: UdpStat,
    pub tcp_advanced: TcpAdvancedStat,
}

#[derive(Debug, Clone, Default, PartialEq)]
pub struct FsStats {
    pub device: String,
    pub fs_type: String,
    pub limit: u64,
    pub usage: u64,
    pub base_usage: u64,
    pub available: u64,
    pub has_inodes: bool,
    pub inodes: u64,
    pub inodes_free: u64,
    pub reads_completed: u64,
    pub reads_merged: u64,
    pub sectors_read: u64,
    pub read_time: u64,
    pub writes_completed: u64,
    pub writes_merged: u64,
    pub sectors_written: u64,
    pub write_time: u64,
    pub io_in_progress: u64,
    pub io_time: u64,
    pub weighted_io_time: u64,
}

#[derive(Debug, Clone, Copy, Default, PartialEq, Eq)]
pub struct LoadStats {
    pub nr_sleeping: u64,
    pub nr_running: u64,
    pub nr_stopped: u64,
    pub nr_uninterruptible: u64,
    pub nr_io_wait: u64,
}

#[derive(Debug, Clone, Default, PartialEq)]
pub struct ProcessStats {
    pub process_count: u64,
    pub fd_count: u64,
    pub socket_count: u64,
    pub threads_current: u64,
    pub threads_max: u64,
    pub ulimits: Vec<UlimitSpec>,
}

/// One stats sample of a container.
#[derive(Debug, Clone, Default, PartialEq)]
pub struct ContainerStats {
    pub timestamp: GoTime,
    pub cpu: CpuStats,
    pub disk_io: DiskIoStats,
    pub memory: MemoryStats,
    /// Huge-page usage keyed by page size, in key order.
    pub hugetlb: Vec<(String, HugetlbStats)>,
    pub network: NetworkStats,
    pub filesystem: Vec<FsStats>,
    pub task_stats: LoadStats,
    pub accelerators: Vec<AcceleratorStats>,
    pub processes: ProcessStats,
    pub referenced_memory: u64,
    pub resctrl: ResctrlStats,
    pub cpu_set: CPUSetStats,
    pub oom_events: u64,
}

/// Instantaneous CPU usage, nanocores per second.
#[derive(Debug, Clone, Default, PartialEq)]
pub struct CpuInstUsage {
    pub total: u64,
    pub per_cpu: Vec<u64>,
    pub user: u64,
    pub system: u64,
}

#[derive(Debug, Clone, Default, PartialEq)]
pub struct CpuInstStats {
    pub usage: CpuInstUsage,
}

pub open spec fn tcp_zero() -> TcpStat {
    TcpStat {
        established: 0,
        syn_sent: 0,
        syn_recv: 0,
        fin_wait1: 0,
        fin_wait2: 0,
        time_wait: 0,
        close: 0,
        close_wait: 0,
        last_ack: 0,
        listen: 0,
        closing: 0,
    }
}

pub open spec fn tcp_advanced_zero() -> TcpAdvancedStat {
    TcpAdvancedStat {
        rto_algorithm: 0,
        rto_min: 0,
        rto_max: 0,
        max_conn: 0,
        active_opens: 0,
        passive_opens: 0,
        attempt_fails: 0,
        estab_resets: 0,
        curr_estab: 0,
        in_segs: 0,
        out_segs: 0,
        retrans_segs: 0,
        in_errs: 0,
        out_rsts: 0,
        in_csum_errors: 0,
        embryonic_rsts: 0,
        syncookies_sent: 0,
        syncookies_recv: 0,
        syncookies_failed: 0,
        prune_called: 0,
        rcv_pruned: 0,
        ofo_pruned: 0,
        out_of_window_icmps: 0,
        lock_dropped_icmps: 0,
        tw: 0,
        tw_recycled: 0,
        tw_killed: 0,
        tcp_time_wait_overflow: 0,
        tcp_timeouts: 0,
        tcp_spurious_rtos: 0,
        tcp_loss_probes: 0,
        tcp_loss_probe_recovery: 0,
        tcp_reno_recovery_fail: 0,
        tcp_sack_recovery_fail: 0,
        tcp_reno_failures: 0,
        tcp_sack_failures: 0,
        tcp_loss_failures: 0,
        delayed_acks: 0,
        delayed_ack_locked: 0,
        delayed_ack_lost: 0,
        listen_overflows: 0,
        listen_drops: 0,
        tcp_hp_hits: 0,
        tcp_pure_acks: 0,
        tcp_hp_acks: 0,
        tcp_reno_recovery: 0,
        tcp_sack_recovery: 0,
        tcp_sack_reneging: 0,
        tcp_fack_reorder: 0,
        tcp_sack_reorder: 0,
        tcp_reno_reorder: 0,
        tcp_ts_reorder: 0,
        tcp_full_undo: 0,
        tcp_partial_undo: 0,
        tcp_dsack_undo: 0,
        tcp_loss_undo: 0,
        tcp_fast_retrans: 0,
        tcp_slow_start_retrans: 0,
        tcp_lost_retransmit: 0,
        tcp_retrans_fail: 0,
        tcp_rcv_collapsed: 0,
        tcp_dsack_old_sent: 0,
        tcp_dsack_ofo_sent: 0,
        tcp_dsack_recv: 0,
        tcp_dsack_ofo_recv: 0,
        tcp_abort_on_data: 0,
        tcp_abort_on_close: 0,
        tcp_abort_on_memory: 0,
        tcp_abort_on_timeout: 0,
        tcp_abort_on_linger: 0,
        tcp_abort_failed: 0,
        tcp_memory_pressures: 0,
        tcp_memory_pressures_chrono: 0,
        tcp_sack_discard: 0,
        tcp_dsack_ignored_old: 0,
        tcp_dsack_ignored_no_undo: 0,
        tcp_md5_not_found: 0,
        tcp_md5_unexpected: 0,
        tcp_md5_failure: 0,
        tcp_sack_shifted: 0,
        tcp_sack_merged: 0,
        tcp_sack_shift_fallback: 0,
        tcp_backlog_drop: 0,
        pf_memalloc_drop: 0,
        tcp_min_ttl_drop: 0,
        tcp_defer_accept_drop: 0,
        ip_reverse_path_filter: 0,
        tcp_req_q_full_do_cookies: 0,
        tcp_req_q_full_drop: 0,
        tcp_fast_open_active: 0,
        tcp_fast_open_active_fail: 0,
        tcp_fast_open_passive: 0,
        tcp_fast_open_passive_fail: 0,
        tcp_fast_open_listen_overflow: 0,
        tcp_fast_open_cookie_reqd: 0,
        tcp_syn_retrans: 0,
        tcp_orig_data_sent: 0,
        paws_active: 0,
        paws_estab: 0,
    }
}

pub open spec fn udp_zero() -> UdpStat {
    UdpStat { listen: 0, dropped: 0, rx_queued: 0, tx_queued: 0 }
}

pub open spec fn load_zero() -> LoadStats {
    LoadStats { nr_sleeping: 0, nr_running: 0, nr_stopped: 0, nr_uninterruptible: 0, nr_io_wait: 0 }
}

impl TcpStat {
    pub fn zero() -> (t: TcpStat)
        ensures
            t == tcp_zero(),
    {
        TcpStat {
            established: 0,
            syn_sent: 0,
            syn_recv: 0,
            fin_wait1: 0,
            fin_wait2: 0,
            time_wait: 0,
            close: 0,
            close_wait: 0,
            last_ack: 0,
            listen: 0,
            closing: 0,
        }
    }
}

impl TcpAdvancedStat {
    pub fn zero() -> (t: TcpAdvancedStat)
        ensures
            t == tcp_advanced_zero(),
    {
        TcpAdvancedStat {
            rto_algorithm: 0,
            rto_min: 0,
            rto_max: 0,
            max_conn: 0,
            active_opens: 0,
            passive_opens: 0,
            attempt_fails: 0,
            estab_resets: 0,
            curr_estab: 0,
            in_segs: 0,
            out_segs: 0,
            retrans_segs: 0,
            in_errs: 0,
            out_rsts: 0,
            in_csum_errors: 0,
            embryonic_rsts: 0,
            syncookies_sent: 0,
            syncookies_recv: 0,
            syncookies_failed: 0,
            prune_called: 0,
            rcv_pruned: 0,
            ofo_pruned: 0,
            out_of_window_icmps: 0,
            lock_dropped_icmps: 0,
            tw: 0,
            tw_recycled: 0,
            tw_killed: 0,
            tcp_time_wait_overflow: 0,
            tcp_timeouts: 0,
            tcp_spurious_rtos: 0,
            tcp_loss_probes: 0,
            tcp_loss_probe_recovery: 0,
            tcp_reno_recovery_fail: 0,
            tcp_sack_recovery_fail: 0,
            tcp_reno_failures: 0,
            tcp_sack_failures: 0,
            tcp_loss_failures: 0,
            delayed_acks: 0,
            delayed_ack_locked: 0,
            delayed_ack_lost: 0,
            listen_overflows: 0,
            listen_drops: 0,
            tcp_hp_hits: 0,
            tcp_pure_acks: 0,
            tcp_hp_acks: 0,
            tcp_reno_recovery: 0,
            tcp_sack_recovery: 0,
            tcp_sack_reneging: 0,
            tcp_fack_reorder: 0,
            tcp_sack_reorder: 0,
            tcp_reno_reorder: 0,
            tcp_ts_reorder: 0,
            tcp_full_undo: 0,
            tcp_partial_undo: 0,
            tcp_dsack_undo: 0,
            tcp_loss_undo: 0,
            tcp_fast_retrans: 0,
            tcp_slow_start_retrans: 0,
            tcp_lost_retransmit: 0,
            tcp_retrans_fail: 0,
            tcp_rcv_collapsed: 0,
            tcp_dsack_old_sent: 0,
            tcp_dsack_ofo_sent: 0,
            tcp_dsack_recv: 0,
            tcp_dsack_ofo_recv: 0,
            tcp_abort_on_data: 0,
            tcp_abort_on_close: 0,
            tcp_abort_on_memory: 0,
            tcp_abort_on_timeout: 0,
            tcp_abort_on_linger: 0,
            tcp_abort_failed: 0,
            tcp_memory_pressures: 0,
            tcp_memory_pressures_chrono: 0,
            tcp_sack_discard: 0,
            tcp_dsack_ignored_old: 0,
            tcp_dsack_ignored_no_undo: 0,
            tcp_md5_not_found: 0,
            tcp_md5_unexpected: 0,
            tcp_md5_failure: 0,
            tcp_sack_shifted: 0,
            tcp_sack_merged: 0,
            tcp_sack_shift_fallback: 0,
            tcp_backlog_drop: 0,
            pf_memalloc_drop: 0,
            tcp_min_ttl_drop: 0,
            tcp_defer_accept_drop: 0,
            ip_reverse_path_filter: 0,
            tcp_req_q_full_do_cookies: 0,
            tcp_req_q_full_drop: 0,
            tcp_fast_open_active: 0,
            tcp_fast_open_active_fail: 0,
            tcp_fast_open_passive: 0,
            tcp_fast_open_passive_fail: 0,
            tcp_fast_open_listen_overflow: 0,
            tcp_fast_open_cookie_reqd: 0,
            tcp_syn_retrans: 0,
            tcp_orig_data_sent: 0,
            paws_active: 0,
            paws_estab: 0,
        }
    }
}

impl UdpStat {
    pub fn zero() -> (u: UdpStat)
        ensures
            u == udp_zero(),
    {
        UdpStat { listen: 0, dropped: 0, rx_queued: 0, tx_queued: 0 }
    }
}

impl LoadStats {
    pub fn zero() -> (l: LoadStats)
        ensures
            l == load_zero(),
    {
        LoadStats { nr_sleeping: 0, nr_running: 0, nr_stopped: 0, nr_uninterruptible: 0, nr_io_wait: 0 }
    }
}

impl CpuStats {
    /// All counters zero, no per-CPU entries.
    pub open spec fn is_zero(self) -> bool {
        &&& self.usage.total == 0 && self.usage.user == 0 && self.usage.system == 0
        &&& self.usage.per_cpu@.len() == 0
        &&& self.cfs == (CpuCFS { periods: 0, throttled_periods: 0, throttled_time: 0 })
        &&& self.schedstat == (CpuSchedstat { run_time: 0, runqueue_time: 0, run_periods: 0 })
        &&& self.load_average == 0
    }

    pub fn zero() -> (c: CpuStats)
        ensures
            c.is_zero(),
    {
        CpuStats {
            usage: CpuUsage { total: 0, per_cpu: Vec::new(), user: 0, system: 0 },
            cfs: CpuCFS { periods: 0, throttled_periods: 0, throttled_time: 0 },
            schedstat: CpuSchedstat { run_time: 0, runqueue_time: 0, run_periods: 0 },
            load_average: 0,
        }
    }
}

impl DiskIoStats {
    /// No per-device entries at all.
    pub open spec fn is_zero(self) -> bool {
        &&& self.io_service_bytes@.len() == 0 && self.io_serviced@.len() == 0
        &&& self.io_queued@.len() == 0 && self.sectors@.len() == 0
        &&& self.io_service_time@.len() == 0 && self.io_wait_time@.len() == 0
        &&& self.io_merged@.len() == 0 && self.io_time@.len() == 0
    }

    pub fn zero() -> (d: DiskIoStats)
        ensures
            d.is_zero(),
    {
        DiskIoStats {
            io_service_bytes: Vec::new(),
            io_serviced: Vec::new(),
            io_queued: Vec::new(),
            sectors: Vec::new(),
            io_service_time: Vec::new(),
            io_wait_time: Vec::new(),
            io_merged: Vec::new(),
            io_time: Vec::new(),
        }
    }
}

impl MemoryStatsMemoryData {
    pub open spec fn is_zero(self) -> bool {
        &&& self.pgfault == 0 && self.pgmajfault == 0
        &&& self.numa_stats.file@.len() == 0 && self.numa_stats.anon@.len() == 0
        &&& self.numa_stats.unevictable@.len() == 0
    }

    pub fn zero() -> (m: MemoryStatsMemoryData)
        ensures
            m.is_zero(),
    {
        MemoryStatsMemoryData {
            pgfault: 0,
            pgmajfault: 0,
            numa_stats: MemoryNumaStats { file: Vec::new(), anon: Vec::new(), unevictable: Vec::new() },
        }
    }
}

impl MemoryStats {
    pub open spec fn is_zero(self) -> bool {
        &&& self.usage == 0 && self.max_usage == 0 && self.cache == 0 && self.rss == 0
        &&& self.swap == 0 && self.mapped_file == 0 && self.working_set == 0
        &&& self.failcnt == 0 && self.kernel_usage == 0
        &&& self.container_data.is_zero() && self.hierarchical_data.is_zero()
    }

    pub fn zero() -> (m: MemoryStats)
        ensures
            m.is_zero(),
    {
        MemoryStats {
            usage: 0,
            max_usage: 0,
            cache: 0,
            rss: 0,
            swap: 0,
            mapped_file: 0,
            working_set: 0,
            failcnt: 0,
            kernel_usage: 0,
            container_data: MemoryStatsMemoryData::zero(),
            hierarchical_data: MemoryStatsMemoryData::zero(),
        }
    }
}

impl ProcessStats {
    pub open spec fn is_zero(self) -> bool {
        &&& self.process_count == 0 && self.fd_count == 0 && self.socket_count == 0
        &&& self.threads_current == 0 && self.threads_max == 0
        &&& self.ulimits@.len() == 0
    }

    pub fn zero() -> (p: ProcessStats)
        ensures
            p.is_zero(),
    {
        ProcessStats { process_count: 0, fd_count: 0, socket_count: 0, threads_current: 0, threads_max: 0, ulimits: Vec::new() }
    }
}

} // verus!

verus! {

/// A map with text keys, as an association list in key order (keys unique).
pub type TextMap = Vec<(String, String)>;

#[derive(Debug, Clone, Default, PartialEq)]
pub struct CpuSpec {
    pub limit: u64,
    pub max_limit: u64,
    pub mask: String,
    pub quota: u64,
    pub period: u64,
}

#[derive(Debug, Clone, Default, PartialEq)]
pub struct MemorySpec {
    pub limit: u64,
    pub reservation: u64,
    pub swap_limit: u64,
}

#[derive(Debug, Clone, Default, PartialEq)]
pub struct ProcessSpec {
    pub limit: u64,
}

/// A container's v1 spec.
#[derive(Debug, Clone, Default, PartialEq)]
pub struct ContainerSpec {
    pub creation_time: GoTime,
    pub labels: TextMap,
    pub envs: TextMap,
    pub has_cpu: bool,
    pub cpu: CpuSpec,
    pub has_memory: bool,
    pub memory: MemorySpec,
    pub has_hugetlb: bool,
    pub has_network: bool,
    pub has_processes: bool,
    pub processes: ProcessSpec,
    pub has_filesystem: bool,
    pub has_disk_io: bool,
    pub has_custom_metrics: bool,
    pub custom_metrics: Vec<MetricSpec>,
    pub image: String,
}

#[derive(Debug, Clone, Default, PartialEq)]
pub struct ContainerReference {
    pub id: String,
    pub name: String,
    pub aliases: Vec<String>,
    pub namespace: String,
}

#[derive(Debug, Clone, Copy, PartialEq, Eq)]
pub struct ContainerInfoRequest {
    pub num_stats: i64,
    pub start: GoTime,
    pub end: GoTime,
}

impl ContainerInfoRequest {
    /// Upstream's defaults: the 60 most recent samples, unbounded in time.
    pub fn default_request() -> (r: ContainerInfoRequest)
        ensures
            r.num_stats == 60,
            r.start.spec_is_zero(),
            r.end.spec_is_zero(),
    {
        ContainerInfoRequest { num_stats: 60, start: GoTime::zero(), end: GoTime::zero() }
    }
}

#[derive(Debug, Clone, Default, PartialEq)]
pub struct FilesystemInfo {
    pub device: String,
    pub device_major: u64,
    pub device_minor: u64,
    pub capacity: u64,
    pub fs_type: String,
    pub inodes: u64,
    pub has_inodes: bool,
}

#[derive(Debug, Clone, Default, PartialEq)]
pub struct Cache {
    pub id: i64,
    pub size: u64,
    pub cache_type: String,
    pub level: i64,
}

#[derive(Debug, Clone, Default, PartialEq)]
pub struct Core {
    pub id: i64,
    pub threads: Vec<i64>,
    pub caches: Vec<Cache>,
    pub socket_id: i64,
}

#[derive(Debug, Clone, Copy, Default, PartialEq, Eq)]
pub struct HugePagesInfo {
    pub page_size: u64,
    pub num_pages: u64,
}

#[derive(Debug, Clone, Default, PartialEq)]
pub struct Node {
    pub id: i64,
    pub memory: u64,
    pub hugepages: Vec<HugePagesInfo>,
    pub cores: Vec<Core>,
    pub caches: Vec<Cache>,
    pub distances: Vec<u64>,
}

#[derive(Debug, Clone, Default, PartialEq)]
pub struct DiskInfo {
    pub name: String,
    pub major: u64,
    pub minor: u64,
    pub size: u64,
    pub scheduler: String,
}

#[derive(Debug, Clone, Default, PartialEq)]
pub struct NetInfo {
    pub name: String,
    pub mac_address: String,
    pub speed: i64,
    pub mtu: i64,
}

#[derive(Debug, Clone, Copy, Default, PartialEq, Eq)]
pub struct MemoryInfo {
    pub capacity: u64,
    pub dimm_count: u64,
}

#[derive(Debug, Clone, Copy, Default, PartialEq, Eq)]
pub struct NVMInfo {
    pub memory_mode_capacity: u64,
    pub app_direct_mode_capacity: u64,
    pub avg_power_budget: u64,
}

#[derive(Debug, Clone, Default, PartialEq)]
pub struct MachineInfo {
    pub timestamp: GoTime,
    pub cpu_vendor_id: String,
    pub num_cores: i64,
    pub num_physical_cores: i64,
    pub num_sockets: i64,
    pub cpu_frequency: u64,
    pub memory_capacity: u64,
    pub swap_capacity: u64,
    pub memory_by_type: Vec<(String, MemoryInfo)>,
    pub nvm_info: NVMInfo,
    pub huge_pages: Vec<HugePagesInfo>,
    pub machine_id: String,
    pub system_uuid: String,
    pub boot_id: String,
    pub filesystems: Vec<FilesystemInfo>,
    /// Block devices keyed by `major:minor`, in key order.
    pub disk_map: Vec<(String, DiskInfo)>,
    pub network_devices: Vec<NetInfo>,
    pub topology: Vec<Node>,
    pub cloud_provider: String,
    pub instance_type: String,
    pub instance_id: String,
}

#[derive(Debug, Clone, Default, PartialEq)]
pub struct VersionInfo {
    pub kernel_version: String,
    pub container_os_version: String,
    pub docker_version: String,
    pub docker_api_version: String,
    pub cadvisor_version: String,
    pub cadvisor_revision: String,
}

#[derive(Debug, Clone, Copy, PartialEq, Eq, Structural)]
pub enum EventType {
    Oom,
    OomKill,
    ContainerCreation,
    ContainerDeletion,
}

#[derive(Debug, Clone, Default, PartialEq)]
pub struct OomKillEventData {
    pub pid: i64,
    pub process_name: String,
    pub constraint: String,
}

#[derive(Debug, Clone, Default, PartialEq)]
pub struct EventData {
    pub oom_kill: Option<OomKillEventData>,
}

#[derive(Debug, Clone, PartialEq)]
pub struct Event {
    pub container_name: String,
    pub timestamp: GoTime,
    pub event_type: EventType,
    pub event_data: EventData,
}

} // verus!
