//! The v2 API's shapes (without their serialization) and the conversions
//! from the v1 model that produce them: specs, per-sample stats in the
//! v2.1 and the older v2.0 form, machine stats, attributes and summaries.

use std::sync::Arc;

use vstd::prelude::*;

use crate::api::{percentiles_from, percentiles_spec, sum_of, Percentiles};
use crate::fs::{disk_counters, find_disk, kept, lemma_disk_counters_at, lemma_kept_step, FsService, FsUsage, Partition};
use crate::order::str_eq;
use crate::parse::DiskStatsLine;
use crate::parse::lines_of;
use crate::text::{chars_of, find_char_in, i64_field, i64_field_of, lines, push_all, split_once_char, starts_with, string_of, trim, trim_range, u64_field, u64_field_of, word_ranges, words};
use crate::model;
use crate::model::{
    AcceleratorStats, ContainerReference, CpuInstStats, CpuSpec, CpuStats, DiskInfo, DiskIoStats, FilesystemInfo,
    FsStats, GoTime, HugePagesInfo, HugetlbStats, InterfaceStats, LoadStats, MachineInfo, MemorySpec, MemoryStats,
    MetricSpec, NetInfo, Node, ProcessSpec, ProcessStats, ResctrlStats, TcpAdvancedStat, TcpStat, TextMap, UdpStat, VersionInfo,
};

verus! {

/// What the v2 API reports of a container's configuration.
#[derive(Debug, Clone, PartialEq)]
pub struct ContainerSpec {
    pub creation_time: GoTime,
    pub aliases: Vec<String>,
    pub namespace: String,
    pub labels: TextMap,
    pub envs: TextMap,
    pub has_cpu: bool,
    pub cpu: CpuSpec,
    pub has_memory: bool,
    pub memory: MemorySpec,
    pub has_hugetlb: bool,
    pub has_custom_metrics: bool,
    pub custom_metrics: Vec<MetricSpec>,
    pub has_processes: bool,
    pub processes: ProcessSpec,
    pub has_network: bool,
    pub has_filesystem: bool,
    pub has_disk_io: bool,
    pub image: String,
}

/// v2 network stats: the interfaces, without an inlined default one.
#[derive(Debug, Clone, PartialEq)]
pub struct NetworkStats {
    pub interfaces: Vec<InterfaceStats>,
    pub tcp: TcpStat,
    pub tcp6: TcpStat,
    pub udp: UdpStat,
    pub udp6: UdpStat,
    pub tcp_advanced: TcpAdvancedStat,
}

/// Per-container filesystem rollup.
#[derive(Debug, Clone, Copy, PartialEq, Eq)]
pub struct FilesystemStats {
    pub total_usage_bytes: Option<u64>,
    pub base_usage_bytes: Option<u64>,
    pub inode_usage: Option<u64>,
}

/// One v2.1 stats sample: each part present only where the spec has it.
#[derive(Debug, Clone, PartialEq)]
pub struct ContainerStats {
    pub timestamp: GoTime,
    pub cpu: Option<CpuStats>,
    pub cpu_inst: Option<CpuInstStats>,
    pub disk_io: Option<DiskIoStats>,
    pub memory: Option<MemoryStats>,
    pub hugetlb: Option<Vec<(String, HugetlbStats)>>,
    pub network: Option<NetworkStats>,
    pub processes: Option<ProcessStats>,
    pub filesystem: Option<FilesystemStats>,
    pub load: Option<LoadStats>,
    pub accelerators: Vec<AcceleratorStats>,
    pub referenced_memory: u64,
    pub resctrl: ResctrlStats,
}

/// A spec with the samples that go with it.
#[derive(Debug, Clone, PartialEq)]
pub struct ContainerInfo {
    pub spec: ContainerSpec,
    pub stats: Vec<ContainerStats>,
}

/// One v2.0 stats sample: every part present, with `has_*` flags.
#[derive(Debug, Clone, PartialEq)]
pub struct DeprecatedContainerStats {
    pub timestamp: GoTime,
    pub has_cpu: bool,
    pub cpu: CpuStats,
    pub cpu_inst: Option<CpuInstStats>,
    pub has_disk_io: bool,
    pub disk_io: DiskIoStats,
    pub has_memory: bool,
    pub memory: MemoryStats,
    pub has_hugetlb: bool,
    pub hugetlb: Vec<(String, HugetlbStats)>,
    pub has_network: bool,
    pub network: NetworkStats,
    pub has_processes: bool,
    pub processes: ProcessStats,
    pub has_filesystem: bool,
    pub filesystem: Vec<FsStats>,
    pub has_load: bool,
    pub load: LoadStats,
    pub has_custom_metrics: bool,
    pub referenced_memory: u64,
    pub resctrl: ResctrlStats,
}

/// The v2 spec of a container: its v1 spec with the runtime's aliases and
/// namespace; of the CPU settings only shares, max limit and mask remain
/// (quota and period read 0) and the pids limit reads 0.
pub open spec fn v2_spec_of(s: model::ContainerSpec, r: ContainerReference) -> ContainerSpec {
    ContainerSpec {
        creation_time: s.creation_time,
        aliases: r.aliases,
        namespace: r.namespace,
        labels: s.labels,
        envs: s.envs,
        has_cpu: s.has_cpu,
        cpu: CpuSpec { limit: s.cpu.limit, max_limit: s.cpu.max_limit, mask: s.cpu.mask, quota: 0, period: 0 },
        has_memory: s.has_memory,
        memory: s.memory,
        has_hugetlb: s.has_hugetlb,
        has_custom_metrics: s.has_custom_metrics,
        custom_metrics: s.custom_metrics,
        has_processes: s.has_processes,
        processes: ProcessSpec { limit: 0 },
        has_network: s.has_network,
        has_filesystem: s.has_filesystem,
        has_disk_io: s.has_disk_io,
        image: s.image,
    }
}

pub fn v2_spec(s: model::ContainerSpec, r: ContainerReference) -> (v: ContainerSpec)
    ensures
        v == v2_spec_of(s, r),
{
    ContainerSpec {
        creation_time: s.creation_time,
        aliases: r.aliases,
        namespace: r.namespace,
        labels: s.labels,
        envs: s.envs,
        has_cpu: s.has_cpu,
        cpu: CpuSpec { limit: s.cpu.limit, max_limit: s.cpu.max_limit, mask: s.cpu.mask, quota: 0, period: 0 },
        has_memory: s.has_memory,
        memory: s.memory,
        has_hugetlb: s.has_hugetlb,
        has_custom_metrics: s.has_custom_metrics,
        custom_metrics: s.custom_metrics,
        has_processes: s.has_processes,
        processes: ProcessSpec { limit: 0 },
        has_network: s.has_network,
        has_filesystem: s.has_filesystem,
        has_disk_io: s.has_disk_io,
        image: s.image,
    }
}

pub open spec fn v2_network_of(n: model::NetworkStats) -> NetworkStats {
    NetworkStats { interfaces: n.interfaces, tcp: n.tcp, tcp6: n.tcp6, udp: n.udp, udp6: n.udp6, tcp_advanced: n.tcp_advanced }
}

/// v1 network stats without the inlined default interface.
pub fn v2_network(n: model::NetworkStats) -> (v: NetworkStats)
    ensures
        v == v2_network_of(n),
{
    NetworkStats { interfaces: n.interfaces, tcp: n.tcp, tcp6: n.tcp6, udp: n.udp, udp6: n.udp6, tcp_advanced: n.tcp_advanced }
}

/// The filesystem rollup: with exactly one filesystem, its usage and base
/// usage and the container's inode usage; otherwise nothing known.
pub open spec fn filesystem_of(fs: Seq<FsStats>, inode_usage: u64) -> FilesystemStats {
    if fs.len() == 1 {
        FilesystemStats {
            total_usage_bytes: Some(fs[0].usage),
            base_usage_bytes: Some(fs[0].base_usage),
            inode_usage: Some(inode_usage),
        }
    } else {
        FilesystemStats { total_usage_bytes: None, base_usage_bytes: None, inode_usage: None }
    }
}

pub open spec fn when<T>(b: bool, x: T) -> Option<T> {
    if b {
        Some(x)
    } else {
        None
    }
}

/// A v1 sample in v2.1 form under `spec`: each part present exactly where
/// the spec has it, the CPU rate as given, no load stats.
pub open spec fn v2_sample_of(
    s: model::ContainerStats,
    spec: model::ContainerSpec,
    inode_usage: u64,
    cpu_inst: Option<CpuInstStats>,
) -> ContainerStats {
    ContainerStats {
        timestamp: s.timestamp,
        cpu: when(spec.has_cpu, s.cpu),
        cpu_inst,
        disk_io: when(spec.has_disk_io, s.disk_io),
        memory: when(spec.has_memory, s.memory),
        hugetlb: when(spec.has_hugetlb, s.hugetlb),
        network: when(spec.has_network, v2_network_of(s.network)),
        processes: when(spec.has_processes, s.processes),
        filesystem: when(spec.has_filesystem, filesystem_of(s.filesystem@, inode_usage)),
        load: None,
        accelerators: s.accelerators,
        referenced_memory: s.referenced_memory,
        resctrl: s.resctrl,
    }
}

pub fn v2_sample(s: model::ContainerStats, spec: &model::ContainerSpec, inode_usage: u64, cpu_inst: Option<CpuInstStats>) -> (v: ContainerStats)
    ensures
        v == v2_sample_of(s, *spec, inode_usage, cpu_inst),
{
    let filesystem = if spec.has_filesystem {
        if s.filesystem.len() == 1 {
            Some(
                FilesystemStats {
                    total_usage_bytes: Some(s.filesystem[0].usage),
                    base_usage_bytes: Some(s.filesystem[0].base_usage),
                    inode_usage: Some(inode_usage),
                },
            )
        } else {
            Some(FilesystemStats { total_usage_bytes: None, base_usage_bytes: None, inode_usage: None })
        }
    } else {
        None
    };
    ContainerStats {
        timestamp: s.timestamp,
        cpu: if spec.has_cpu { Some(s.cpu) } else { None },
        cpu_inst,
        disk_io: if spec.has_disk_io { Some(s.disk_io) } else { None },
        memory: if spec.has_memory { Some(s.memory) } else { None },
        hugetlb: if spec.has_hugetlb { Some(s.hugetlb) } else { None },
        network: if spec.has_network { Some(v2_network(s.network)) } else { None },
        processes: if spec.has_processes { Some(s.processes) } else { None },
        filesystem,
        load: None,
        accelerators: s.accelerators,
        referenced_memory: s.referenced_memory,
        resctrl: s.resctrl,
    }
}

/// The v2.1 form of each sample, with `cpu_inst[i]` the CPU rate of
/// sample `i`.
pub fn v2_stats(
    samples: Vec<model::ContainerStats>,
    spec: &model::ContainerSpec,
    inode_usage: u64,
    cpu_inst: Vec<Option<CpuInstStats>>,
) -> (r: Vec<ContainerStats>)
    requires
        cpu_inst@.len() == samples@.len(),
    ensures
        r@.len() == samples@.len(),
        forall|i: int|
            0 <= i < r@.len() ==> #[trigger] r@[i] == v2_sample_of(samples@[i], *spec, inode_usage, cpu_inst@[i]),
{
    let ghost s0 = samples@;
    let ghost c0 = cpu_inst@;
    let mut samples = samples;
    let mut cpu_inst = cpu_inst;
    let mut out: Vec<ContainerStats> = Vec::new();
    let n = samples.len();
    let mut k: usize = 0;
    while k < n
        invariant
            k <= n == s0.len() == c0.len(),
            samples@ == s0.skip(k as int),
            cpu_inst@ == c0.skip(k as int),
            out@.len() == k,
            forall|i: int| 0 <= i < k ==> #[trigger] out@[i] == v2_sample_of(s0[i], *spec, inode_usage, c0[i]),
        decreases n - k,
    {
        let s = samples.remove(0);
        let c = cpu_inst.remove(0);
        assert(s0.skip(k as int).remove(0) =~= s0.skip(k + 1));
        assert(c0.skip(k as int).remove(0) =~= c0.skip(k + 1));
        out.push(v2_sample(s, spec, inode_usage, c));
        k += 1;
    }
    out
}

impl NetworkStats {
    pub open spec fn is_zero(self) -> bool {
        &&& self.interfaces@.len() == 0
        &&& self.tcp == model::tcp_zero() && self.tcp6 == model::tcp_zero()
        &&& self.udp == model::udp_zero() && self.udp6 == model::udp_zero()
        &&& self.tcp_advanced == model::tcp_advanced_zero()
    }

    pub fn zero() -> (n: NetworkStats)
        ensures
            n.is_zero(),
    {
        NetworkStats {
            interfaces: Vec::new(),
            tcp: TcpStat::zero(),
            tcp6: TcpStat::zero(),
            udp: UdpStat::zero(),
            udp6: UdpStat::zero(),
            tcp_advanced: TcpAdvancedStat::zero(),
        }
    }
}

/// A v2.1 sample in v2.0 form under `spec`: the flags from the spec, each
/// absent part as its zero value, no filesystems and no load stats.
pub open spec fn deprecated_of(d: DeprecatedContainerStats, s: ContainerStats, spec: model::ContainerSpec) -> bool {
    &&& d.timestamp == s.timestamp
    &&& d.has_cpu == spec.has_cpu
    &&& match s.cpu {
        Some(c) => d.cpu == c,
        None => d.cpu.is_zero(),
    }
    &&& d.cpu_inst == s.cpu_inst
    &&& d.has_disk_io == spec.has_disk_io
    &&& match s.disk_io {
        Some(x) => d.disk_io == x,
        None => d.disk_io.is_zero(),
    }
    &&& d.has_memory == spec.has_memory
    &&& match s.memory {
        Some(x) => d.memory == x,
        None => d.memory.is_zero(),
    }
    &&& d.has_hugetlb == spec.has_hugetlb
    &&& match s.hugetlb {
        Some(x) => d.hugetlb == x,
        None => d.hugetlb@.len() == 0,
    }
    &&& d.has_network == spec.has_network
    &&& match s.network {
        Some(x) => d.network == x,
        None => d.network.is_zero(),
    }
    &&& d.has_processes == spec.has_processes
    &&& match s.processes {
        Some(x) => d.processes == x,
        None => d.processes.is_zero(),
    }
    &&& d.has_filesystem == spec.has_filesystem
    &&& d.filesystem@.len() == 0
    &&& !d.has_load
    &&& d.load == model::load_zero()
    &&& d.has_custom_metrics == spec.has_custom_metrics
    &&& d.referenced_memory == s.referenced_memory
    &&& d.resctrl == s.resctrl
}

pub fn deprecated_sample(s: ContainerStats, spec: &model::ContainerSpec) -> (d: DeprecatedContainerStats)
    ensures
        deprecated_of(d, s, *spec),
{
    DeprecatedContainerStats {
        timestamp: s.timestamp,
        has_cpu: spec.has_cpu,
        cpu: match s.cpu {
            Some(c) => c,
            None => CpuStats::zero(),
        },
        cpu_inst: s.cpu_inst,
        has_disk_io: spec.has_disk_io,
        disk_io: match s.disk_io {
            Some(x) => x,
            None => DiskIoStats::zero(),
        },
        has_memory: spec.has_memory,
        memory: match s.memory {
            Some(x) => x,
            None => MemoryStats::zero(),
        },
        has_hugetlb: spec.has_hugetlb,
        hugetlb: match s.hugetlb {
            Some(x) => x,
            None => Vec::new(),
        },
        has_network: spec.has_network,
        network: match s.network {
            Some(x) => x,
            None => NetworkStats::zero(),
        },
        has_processes: spec.has_processes,
        processes: match s.processes {
            Some(x) => x,
            None => ProcessStats::zero(),
        },
        has_filesystem: spec.has_filesystem,
        filesystem: Vec::new(),
        has_load: false,
        load: LoadStats::zero(),
        has_custom_metrics: spec.has_custom_metrics,
        referenced_memory: s.referenced_memory,
        resctrl: s.resctrl,
    }
}

/// The v2.0 form of each v2.1 sample.
pub fn deprecated_stats(stats: Vec<ContainerStats>, spec: &model::ContainerSpec) -> (r: Vec<DeprecatedContainerStats>)
    ensures
        r@.len() == stats@.len(),
        forall|i: int| 0 <= i < r@.len() ==> deprecated_of(#[trigger] r@[i], stats@[i], *spec),
{
    let ghost s0 = stats@;
    let mut stats = stats;
    let mut out: Vec<DeprecatedContainerStats> = Vec::new();
    let n = stats.len();
    let mut k: usize = 0;
    while k < n
        invariant
            k <= n == s0.len(),
            stats@ == s0.skip(k as int),
            out@.len() == k,
            forall|i: int| 0 <= i < k ==> deprecated_of(#[trigger] out@[i], s0[i], *spec),
        decreases n - k,
    {
        let s = stats.remove(0);
        assert(s0.skip(k as int).remove(0) =~= s0.skip(k + 1));
        out.push(deprecated_sample(s, spec));
        k += 1;
    }
    out
}

/// Per-partition disk counters; durations in nanoseconds.
#[derive(Debug, Clone, Copy, PartialEq, Eq)]
pub struct DiskStats {
    pub reads_completed: Option<u64>,
    pub reads_merged: Option<u64>,
    pub sectors_read: Option<u64>,
    pub read_duration: Option<i64>,
    pub writes_completed: Option<u64>,
    pub writes_merged: Option<u64>,
    pub sectors_written: Option<u64>,
    pub write_duration: Option<i64>,
    pub io_in_progress: Option<u64>,
    pub io_duration: Option<i64>,
    pub weighted_io_duration: Option<i64>,
}

/// One partition in the machine stats.
#[derive(Debug, Clone, PartialEq)]
pub struct MachineFsStats {
    pub device: String,
    pub fs_type: String,
    pub capacity: Option<u64>,
    pub usage: Option<u64>,
    pub available: Option<u64>,
    pub inodes_free: Option<u64>,
    pub disk_stats: DiskStats,
}

/// One machine-wide sample.
#[derive(Debug, Clone, PartialEq)]
pub struct MachineStats {
    pub timestamp: GoTime,
    pub cpu: Option<CpuStats>,
    pub cpu_inst: Option<CpuInstStats>,
    pub memory: Option<MemoryStats>,
    pub network: Option<NetworkStats>,
    pub filesystem: Vec<MachineFsStats>,
    pub load: Option<LoadStats>,
}

/// One filesystem of the storage view.
#[derive(Debug, Clone, PartialEq)]
pub struct FsInfo {
    pub timestamp: GoTime,
    pub device: String,
    pub mountpoint: String,
    pub capacity: u64,
    pub available: u64,
    pub usage: u64,
    pub labels: Option<Vec<String>>,
    pub inodes: Option<u64>,
    pub inodes_free: Option<u64>,
}

/// The largest millisecond count whose nanoseconds fit an `i64`.
pub const MAX_MILLIS: u64 = 9_223_372_036_854;

/// Counters of a disk line with times in nanoseconds; all zero without one.
pub open spec fn disk_stats_of(d: Option<DiskStatsLine>) -> DiskStats {
    match d {
        Some(x) => DiskStats {
            reads_completed: Some(x.reads_completed),
            reads_merged: Some(x.reads_merged),
            sectors_read: Some(x.sectors_read),
            read_duration: Some((x.read_time * 1_000_000) as i64),
            writes_completed: Some(x.writes_completed),
            writes_merged: Some(x.writes_merged),
            sectors_written: Some(x.sectors_written),
            write_duration: Some((x.write_time * 1_000_000) as i64),
            io_in_progress: Some(x.io_in_progress),
            io_duration: Some((x.io_time * 1_000_000) as i64),
            weighted_io_duration: Some((x.weighted_io_time * 1_000_000) as i64),
        },
        None => DiskStats {
            reads_completed: Some(0),
            reads_merged: Some(0),
            sectors_read: Some(0),
            read_duration: Some(0),
            writes_completed: Some(0),
            writes_merged: Some(0),
            sectors_written: Some(0),
            write_duration: Some(0),
            io_in_progress: Some(0),
            io_duration: Some(0),
            weighted_io_duration: Some(0),
        },
    }
}

/// Times of a disk line that convert to nanoseconds without overflow.
pub open spec fn disk_times_fit(d: DiskStatsLine) -> bool {
    &&& d.read_time <= MAX_MILLIS && d.write_time <= MAX_MILLIS
    &&& d.io_time <= MAX_MILLIS && d.weighted_io_time <= MAX_MILLIS
}

/// Usages whose free space does not exceed the capacity.
pub open spec fn usages_sane(us: Seq<Option<FsUsage>>) -> bool {
    forall|i: int| 0 <= i < us.len() ==> (#[trigger] us[i] matches Some(u) ==> u.free <= u.capacity)
}

fn millis_to_nanos(ms: u64) -> (n: i64)
    requires
        ms <= MAX_MILLIS,
    ensures
        n == ms * 1_000_000,
{
    (ms as i64) * 1_000_000
}

fn disk_stats(d: Option<&DiskStatsLine>) -> (r: DiskStats)
    requires
        d matches Some(x) ==> disk_times_fit(*x),
    ensures
        r == disk_stats_of(match d {
            Some(x) => Some(*x),
            None => None,
        }),
{
    match d {
        Some(x) => DiskStats {
            reads_completed: Some(x.reads_completed),
            reads_merged: Some(x.reads_merged),
            sectors_read: Some(x.sectors_read),
            read_duration: Some(millis_to_nanos(x.read_time)),
            writes_completed: Some(x.writes_completed),
            writes_merged: Some(x.writes_merged),
            sectors_written: Some(x.sectors_written),
            write_duration: Some(millis_to_nanos(x.write_time)),
            io_in_progress: Some(x.io_in_progress),
            io_duration: Some(millis_to_nanos(x.io_time)),
            weighted_io_duration: Some(millis_to_nanos(x.weighted_io_time)),
        },
        None => DiskStats {
            reads_completed: Some(0),
            reads_merged: Some(0),
            sectors_read: Some(0),
            read_duration: Some(0),
            writes_completed: Some(0),
            writes_merged: Some(0),
            sectors_written: Some(0),
            write_duration: Some(0),
            io_in_progress: Some(0),
            io_duration: Some(0),
            weighted_io_duration: Some(0),
        },
    }
}

/// A partition's machine-stats row: a `vfs` filesystem with capacity,
/// used (capacity less free), available and free inodes, and the counters
/// of its disk.
pub open spec fn machine_fs_row(r: MachineFsStats, p: Partition, u: FsUsage, ds: Seq<DiskStatsLine>) -> bool {
    &&& r.device@ == p.device@
    &&& r.fs_type@ == "vfs"@
    &&& r.capacity == Some(u.capacity)
    &&& r.usage == Some((u.capacity - u.free) as u64)
    &&& r.available == Some(u.available)
    &&& r.inodes_free == Some(u.inodes_free)
    &&& r.disk_stats == disk_stats_of(disk_counters(ds, p.major, p.minor))
}

/// The machine-stats filesystems: one row for each partition whose usage
/// could be read (`usages[i]` of partition `i`), in partition order.
pub fn machine_fs_stats(fs: &FsService, usages: &Vec<Option<FsUsage>>, disks: &Vec<DiskStatsLine>) -> (r: Vec<MachineFsStats>)
    requires
        usages@.len() == fs.partitions@.len(),
        usages_sane(usages@),
        forall|k: int| 0 <= k < disks@.len() ==> disk_times_fit(#[trigger] disks@[k]),
    ensures
        r@.len() == kept(usages@).len(),
        forall|j: int|
            0 <= j < r@.len() ==> machine_fs_row(#[trigger] r@[j], fs.partitions@[kept(usages@)[j]], usages@[kept(usages@)[j]]->0, disks@),
{
    let mut out: Vec<MachineFsStats> = Vec::new();
    let mut i: usize = 0;
    while i < fs.partitions.len()
        invariant
            i <= fs.partitions@.len() == usages@.len(),
            usages_sane(usages@),
            forall|k: int| 0 <= k < disks@.len() ==> disk_times_fit(#[trigger] disks@[k]),
            out@.len() == kept(usages@.take(i as int)).len(),
            forall|j: int|
                0 <= j < out@.len() ==> machine_fs_row(
                    #[trigger] out@[j],
                    fs.partitions@[kept(usages@.take(i as int))[j]],
                    usages@[kept(usages@.take(i as int))[j]]->0,
                    disks@,
                ),
        decreases fs.partitions.len() - i,
    {
        proof {
            lemma_kept_step(usages@, i as int);
        }
        let ghost before = kept(usages@.take(i as int));
        match &usages[i] {
            Some(u) => {
                assert(usages@[i as int] matches Some(x) ==> x.free <= x.capacity);
                let p = &fs.partitions[i];
                let d = find_disk(disks, p.major, p.minor);
                proof {
                    if disk_counters(disks@, p.major, p.minor) is Some {
                        let k = lemma_disk_counters_at(disks@, p.major, p.minor);
                        assert(disk_times_fit(disks@[k]));
                    }
                }
                let mut vfs = String::new();
                push_all(&mut vfs, "vfs");
                out.push(MachineFsStats {
                    device: p.device.clone(),
                    fs_type: vfs,
                    capacity: Some(u.capacity),
                    usage: Some(u.capacity - u.free),
                    available: Some(u.available),
                    inodes_free: Some(u.inodes_free),
                    disk_stats: disk_stats(d),
                });
                assert(kept(usages@.take(i + 1)) == before.push(i as int));
            },
            None => {
                assert(kept(usages@.take(i + 1)) =~= before);
            },
        }
        i += 1;
    }
    assert(usages@.take(usages@.len() as int) =~= usages@);
    out
}

/// A partition's storage row, taken at `now`: capacity, available, used
/// (capacity less free) and inodes; the root mount is labelled `root`.
pub open spec fn storage_row(r: FsInfo, p: Partition, u: FsUsage, now: GoTime) -> bool {
    &&& r.timestamp == now
    &&& r.device@ == p.device@
    &&& r.mountpoint@ == p.mountpoint@
    &&& r.capacity == u.capacity
    &&& r.available == u.available
    &&& r.usage == u.capacity - u.free
    &&& if p.mountpoint@ == "/"@ {
        r.labels matches Some(ls) && ls@.len() == 1 && ls@[0]@ == "root"@
    } else {
        r.labels is None
    }
    &&& r.inodes == Some(u.inodes)
    &&& r.inodes_free == Some(u.inodes_free)
}

/// The storage view: one row for each partition whose usage could be read
/// (`usages[i]` of partition `i`), in partition order.
pub fn storage_info(fs: &FsService, usages: &Vec<Option<FsUsage>>, now: GoTime) -> (r: Vec<FsInfo>)
    requires
        usages@.len() == fs.partitions@.len(),
        usages_sane(usages@),
    ensures
        r@.len() == kept(usages@).len(),
        forall|j: int|
            0 <= j < r@.len() ==> storage_row(#[trigger] r@[j], fs.partitions@[kept(usages@)[j]], usages@[kept(usages@)[j]]->0, now),
{
    let mut out: Vec<FsInfo> = Vec::new();
    let mut i: usize = 0;
    while i < fs.partitions.len()
        invariant
            i <= fs.partitions@.len() == usages@.len(),
            usages_sane(usages@),
            out@.len() == kept(usages@.take(i as int)).len(),
            forall|j: int|
                0 <= j < out@.len() ==> storage_row(
                    #[trigger] out@[j],
                    fs.partitions@[kept(usages@.take(i as int))[j]],
                    usages@[kept(usages@.take(i as int))[j]]->0,
                    now,
                ),
        decreases fs.partitions.len() - i,
    {
        proof {
            lemma_kept_step(usages@, i as int);
        }
        let ghost before = kept(usages@.take(i as int));
        match &usages[i] {
            Some(u) => {
                assert(usages@[i as int] matches Some(x) ==> x.free <= x.capacity);
                let p = &fs.partitions[i];
                let labels = if str_eq(p.mountpoint.as_str(), "/") {
                    let mut root = String::new();
                    push_all(&mut root, "root");
                    let mut ls: Vec<String> = Vec::new();
                    ls.push(root);
                    Some(ls)
                } else {
                    None
                };
                out.push(FsInfo {
                    timestamp: now,
                    device: p.device.clone(),
                    mountpoint: p.mountpoint.clone(),
                    capacity: u.capacity,
                    available: u.available,
                    usage: u.capacity - u.free,
                    labels,
                    inodes: Some(u.inodes),
                    inodes_free: Some(u.inodes_free),
                });
                assert(kept(usages@.take(i + 1)) == before.push(i as int));
            },
            None => {
                assert(kept(usages@.take(i + 1)) =~= before);
            },
        }
        i += 1;
    }
    assert(usages@.take(usages@.len() as int) =~= usages@);
    out
}

/// Whether a storage row carries the label `l`.
pub open spec fn has_label(f: FsInfo, l: Seq<char>) -> bool {
    match f.labels {
        Some(ls) => exists|k: int| 0 <= k < ls@.len() && (#[trigger] ls@[k])@ == l,
        None => false,
    }
}

pub open spec fn labelled(l: Seq<char>) -> spec_fn(FsInfo) -> bool {
    |f: FsInfo| has_label(f, l)
}

#[verifier::loop_isolation(false)]
fn carries_label(f: &FsInfo, label: &str) -> (b: bool)
    ensures
        b == has_label(*f, label@),
{
    match &f.labels {
        Some(ls) => {
            let mut k: usize = 0;
            while k < ls.len()
                invariant
                    k <= ls@.len(),
                    forall|m: int| 0 <= m < k ==> (#[trigger] ls@[m])@ != label@,
                decreases ls.len() - k,
            {
                if str_eq(ls[k].as_str(), label) {
                    assert(ls@[k as int]@ == label@);
                    return true;
                }
                k += 1;
            }
            false
        },
        None => false,
    }
}

/// The storage rows that carry the label `label`, in order.
pub fn with_label(infos: Vec<FsInfo>, label: &str) -> (r: Vec<FsInfo>)
    ensures
        r@ == infos@.filter(labelled(label@)),
{
    let ghost s0 = infos@;
    let mut infos = infos;
    let mut out: Vec<FsInfo> = Vec::new();
    let n = infos.len();
    let mut k: usize = 0;
    while k < n
        invariant
            k <= n == s0.len(),
            infos@ == s0.skip(k as int),
            out@ == s0.take(k as int).filter(labelled(label@)),
        decreases n - k,
    {
        let f = infos.remove(0);
        assert(s0.skip(k as int).remove(0) =~= s0.skip(k + 1));
        assert(f == s0[k as int]);
        assert(s0.take(k + 1).drop_last() =~= s0.take(k as int));
        proof {
            reveal(Seq::filter);
        }
        if carries_label(&f, label) {
            out.push(f);
        }
        k += 1;
    }
    assert(s0.take(n as int) =~= s0);
    out
}

fn copy_fs_row(r: &MachineFsStats) -> (c: MachineFsStats)
    ensures
        c == *r,
{
    MachineFsStats {
        device: r.device.clone(),
        fs_type: r.fs_type.clone(),
        capacity: r.capacity,
        usage: r.usage,
        available: r.available,
        inodes_free: r.inodes_free,
        disk_stats: r.disk_stats,
    }
}

fn copy_fs_rows(v: &Vec<MachineFsStats>) -> (c: Vec<MachineFsStats>)
    ensures
        c@ == v@,
{
    let mut out: Vec<MachineFsStats> = Vec::new();
    let mut i: usize = 0;
    while i < v.len()
        invariant
            i <= v@.len(),
            out@ == v@.take(i as int),
        decreases v.len() - i,
    {
        out.push(copy_fs_row(&v[i]));
        assert(v@.take(i + 1) =~= v@.take(i as int).push(v@[i as int]));
        i += 1;
    }
    assert(v@.take(v@.len() as int) =~= v@);
    out
}

/// A root-container sample as a machine sample, with the given partition
/// rows and no load stats.
pub open spec fn machine_sample_of(m: MachineStats, s: ContainerStats, fs: Seq<MachineFsStats>) -> bool {
    &&& m.timestamp == s.timestamp
    &&& m.cpu == s.cpu
    &&& m.cpu_inst == s.cpu_inst
    &&& m.memory == s.memory
    &&& m.network == s.network
    &&& m.filesystem@ == fs
    &&& m.load is None
}

/// Machine samples from the root container's v2.1 samples, each with the
/// partition rows `fs`.
pub fn machine_stats(stats: Vec<ContainerStats>, fs: &Vec<MachineFsStats>) -> (r: Vec<MachineStats>)
    ensures
        r@.len() == stats@.len(),
        forall|i: int| 0 <= i < r@.len() ==> machine_sample_of(#[trigger] r@[i], stats@[i], fs@),
{
    let ghost s0 = stats@;
    let mut stats = stats;
    let mut out: Vec<MachineStats> = Vec::new();
    let n = stats.len();
    let mut k: usize = 0;
    while k < n
        invariant
            k <= n == s0.len(),
            stats@ == s0.skip(k as int),
            out@.len() == k,
            forall|i: int| 0 <= i < k ==> machine_sample_of(#[trigger] out@[i], s0[i], fs@),
        decreases n - k,
    {
        let s = stats.remove(0);
        assert(s0.skip(k as int).remove(0) =~= s0.skip(k + 1));
        out.push(MachineStats {
            timestamp: s.timestamp,
            cpu: s.cpu,
            cpu_inst: s.cpu_inst,
            memory: s.memory,
            network: s.network,
            filesystem: copy_fs_rows(fs),
            load: None,
        });
        k += 1;
    }
    out
}

/// A machine's description with the software versions.
#[derive(Debug, Clone, PartialEq)]
pub struct Attributes {
    pub kernel_version: String,
    pub container_os_version: String,
    pub docker_version: String,
    pub docker_api_version: String,
    pub cadvisor_version: String,
    pub num_cores: i64,
    pub cpu_frequency: u64,
    pub memory_capacity: u64,
    pub machine_id: String,
    pub system_uuid: String,
    pub huge_pages: Vec<HugePagesInfo>,
    pub filesystems: Vec<FilesystemInfo>,
    pub disk_map: Vec<(String, DiskInfo)>,
    pub network_devices: Vec<NetInfo>,
    pub topology: Vec<Node>,
    pub cloud_provider: String,
    pub instance_type: String,
}

impl Attributes {
    /// The versions of `vi` with the machine facts of `mi`.
    pub fn new(mi: MachineInfo, vi: VersionInfo) -> (a: Attributes)
        ensures
            a.kernel_version == vi.kernel_version,
            a.container_os_version == vi.container_os_version,
            a.docker_version == vi.docker_version,
            a.docker_api_version == vi.docker_api_version,
            a.cadvisor_version == vi.cadvisor_version,
            a.num_cores == mi.num_cores,
            a.cpu_frequency == mi.cpu_frequency,
            a.memory_capacity == mi.memory_capacity,
            a.machine_id == mi.machine_id,
            a.system_uuid == mi.system_uuid,
            a.huge_pages == mi.huge_pages,
            a.filesystems == mi.filesystems,
            a.disk_map == mi.disk_map,
            a.network_devices == mi.network_devices,
            a.topology == mi.topology,
            a.cloud_provider == mi.cloud_provider,
            a.instance_type == mi.instance_type,
    {
        Attributes {
            kernel_version: vi.kernel_version,
            container_os_version: vi.container_os_version,
            docker_version: vi.docker_version,
            docker_api_version: vi.docker_api_version,
            cadvisor_version: vi.cadvisor_version,
            num_cores: mi.num_cores,
            cpu_frequency: mi.cpu_frequency,
            memory_capacity: mi.memory_capacity,
            machine_id: mi.machine_id,
            system_uuid: mi.system_uuid,
            huge_pages: mi.huge_pages,
            filesystems: mi.filesystems,
            disk_map: mi.disk_map,
            network_devices: mi.network_devices,
            topology: mi.topology,
            cloud_provider: mi.cloud_provider,
            instance_type: mi.instance_type,
        }
    }
}

/// Usage over a window.
#[derive(Debug, Clone, Copy, PartialEq, Eq)]
pub struct Usage {
    /// How much of the window the samples cover, 0 to 100.
    pub percent_complete: i32,
    /// CPU rate in milli-CPUs.
    pub cpu: Percentiles,
    /// Memory working set in bytes.
    pub memory: Percentiles,
}

/// The latest CPU rate (milli-CPUs) and working set (bytes).
#[derive(Debug, Clone, Copy, PartialEq, Eq)]
pub struct InstantUsage {
    pub cpu: u64,
    pub memory: u64,
}

/// A container's usage summary.
#[derive(Debug, Clone, Copy, PartialEq, Eq)]
pub struct DerivedStats {
    pub timestamp: GoTime,
    pub latest_usage: InstantUsage,
    pub minute_usage: Usage,
    pub hour_usage: Usage,
    pub day_usage: Usage,
}

pub open spec fn no_percentiles() -> Percentiles {
    Percentiles { present: false, mean: 0, max: 0, fifty: 0, ninety: 0, ninety_five: 0 }
}

pub open spec fn no_usage() -> Usage {
    Usage { percent_complete: 0, cpu: no_percentiles(), memory: no_percentiles() }
}

/// The CPU rates in milli-CPUs: for each sample after the first that has a
/// rate (nanocores per second), that rate over a million, in order.
pub open spec fn milli_rates(totals: Seq<Option<u64>>) -> Seq<u64>
    decreases totals.len(),
{
    if totals.len() == 0 {
        Seq::empty()
    } else {
        milli_rates(totals.drop_last()) + if totals.len() >= 2 && totals.last() is Some {
            seq![(totals.last()->0 / 1_000_000) as u64]
        } else {
            Seq::<u64>::empty()
        }
    }
}

/// The working sets of the samples, in order.
pub open spec fn working_sets(samples: Seq<Arc<model::ContainerStats>>) -> Seq<u64> {
    Seq::new(samples.len(), |i: int| samples[i].memory.working_set)
}

/// How much of a minute `n` one-second samples cover.
pub open spec fn minute_coverage(n: int) -> i32 {
    if n >= 60 {
        100
    } else {
        (n * 100 / 60) as i32
    }
}

/// The summary of a container's samples: the minute's coverage and the
/// percentiles of the CPU rates and working sets; the latest rate and
/// working set; the last sample's time (`now` without samples). The hour
/// and day windows report nothing.
pub open spec fn summary_of(samples: Seq<Arc<model::ContainerStats>>, totals: Seq<Option<u64>>, now: GoTime) -> DerivedStats {
    let rates = milli_rates(totals);
    let n = samples.len();
    DerivedStats {
        timestamp: if n > 0 { samples.last().timestamp } else { now },
        latest_usage: InstantUsage {
            cpu: if rates.len() > 0 { rates.last() } else { 0 },
            memory: if n > 0 { samples.last().memory.working_set } else { 0 },
        },
        minute_usage: Usage {
            percent_complete: minute_coverage(n as int),
            cpu: percentiles_spec(rates),
            memory: percentiles_spec(working_sets(samples)),
        },
        hour_usage: no_usage(),
        day_usage: no_usage(),
    }
}

/// Samples too many to summarize or whose sums leave a `u64`.
pub open spec fn summary_fits(samples: Seq<Arc<model::ContainerStats>>, totals: Seq<Option<u64>>) -> bool {
    &&& samples.len() <= 0x100_0000_0000
    &&& sum_of(working_sets(samples)) <= u64::MAX
    &&& sum_of(milli_rates(totals)) <= u64::MAX
}

proof fn lemma_milli_rates_len(totals: Seq<Option<u64>>)
    ensures
        milli_rates(totals).len() <= totals.len(),
    decreases totals.len(),
{
    if totals.len() > 0 {
        lemma_milli_rates_len(totals.drop_last());
    }
}

/// The usage summary of a container's samples, `totals[i]` being the CPU
/// rate (nanocores per second) of sample `i` where one was derived.
pub fn derived_stats(samples: &Vec<Arc<model::ContainerStats>>, totals: &Vec<Option<u64>>, now: GoTime) -> (d: DerivedStats)
    requires
        totals@.len() == samples@.len(),
        summary_fits(samples@, totals@),
    ensures
        d == summary_of(samples@, totals@, now),
{
    let n = samples.len();
    let mut rates: Vec<u64> = Vec::new();
    let mut mem: Vec<u64> = Vec::new();
    let mut i: usize = 0;
    while i < n
        invariant
            i <= n == samples@.len() == totals@.len(),
            rates@ == milli_rates(totals@.take(i as int)),
            mem@ == working_sets(samples@).take(i as int),
        decreases n - i,
    {
        assert(totals@.take(i + 1).drop_last() =~= totals@.take(i as int));
        assert(working_sets(samples@).take(i + 1) =~= mem@.push(samples@[i as int].memory.working_set));
        mem.push(samples[i].memory.working_set);
        if i > 0 {
            match totals[i] {
                Some(t) => {
                    rates.push(t / 1_000_000);
                },
                None => {},
            }
        }
        assert(rates@ =~= milli_rates(totals@.take(i + 1)));
        i += 1;
    }
    assert(totals@.take(n as int) =~= totals@);
    assert(working_sets(samples@).take(n as int) =~= working_sets(samples@));
    proof {
        lemma_milli_rates_len(totals@);
    }
    let cpu_latest = if rates.len() > 0 { rates[rates.len() - 1] } else { 0 };
    let mem_latest = if n > 0 { samples[n - 1].memory.working_set } else { 0 };
    let timestamp = if n > 0 { samples[n - 1].timestamp } else { now };
    let coverage: i32 = if n >= 60 { 100 } else { (n * 100 / 60) as i32 };
    let minute = Usage { percent_complete: coverage, cpu: percentiles_from(rates), memory: percentiles_from(mem) };
    let none = Percentiles { present: false, mean: 0, max: 0, fifty: 0, ninety: 0, ninety_five: 0 };
    let idle = Usage { percent_complete: 0, cpu: none, memory: none };
    DerivedStats {
        timestamp,
        latest_usage: InstantUsage { cpu: cpu_latest, memory: mem_latest },
        minute_usage: minute,
        hour_usage: idle,
        day_usage: idle,
    }
}

/// One process of a container.
#[derive(Debug, Clone, PartialEq)]
pub struct ProcessInfo {
    pub user: String,
    pub pid: i64,
    pub ppid: i64,
    pub start_time: String,
    pub rss: u64,
    pub virtual_size: u64,
    pub status: String,
    pub running_time: String,
    pub cgroup_path: String,
    pub cmd: String,
    pub fd_count: i64,
    pub psr: i64,
}

/// Index of the last `c` in `s`, or -1.
pub open spec fn last_index(s: Seq<char>, c: char) -> int
    decreases s.len(),
{
    if s.len() == 0 {
        -1
    } else if s.last() == c {
        s.len() - 1
    } else {
        last_index(s.drop_last(), c)
    }
}

/// The fields of a `/proc/<pid>/stat` line after the parenthesized
/// command name: the words after the last `)`.
pub open spec fn stat_fields(stat: Seq<char>) -> Option<Seq<Seq<char>>> {
    let i = last_index(stat, ')');
    if i < 0 {
        None
    } else {
        Some(words(stat.skip(i + 1)))
    }
}

/// The first line that starts with `p`.
pub open spec fn first_with_prefix(ls: Seq<Seq<char>>, p: Seq<char>) -> Option<Seq<char>>
    decreases ls.len(),
{
    if ls.len() == 0 {
        None
    } else if starts_with(ls[0], p) {
        Some(ls[0])
    } else {
        first_with_prefix(ls.drop_first(), p)
    }
}

proof fn lemma_first_with_prefix(ls: Seq<Seq<char>>, p: Seq<char>)
    ensures
        first_with_prefix(ls, p) matches Some(l) ==> starts_with(l, p),
    decreases ls.len(),
{
    if ls.len() > 0 && !starts_with(ls[0], p) {
        lemma_first_with_prefix(ls.drop_first(), p);
    }
}

/// The real user id of a `/proc/<pid>/status` text: the first word after
/// `Uid:` on the first such line, or empty.
pub open spec fn uid_of(status: Seq<char>) -> Seq<char> {
    match first_with_prefix(lines(status), "Uid:"@) {
        Some(l) => {
            let w = words(l.skip(4));
            if w.len() > 0 {
                w[0]
            } else {
                Seq::empty()
            }
        },
        None => Seq::empty(),
    }
}

/// The cgroup path of a `/proc/<pid>/cgroup` text: what follows the
/// second `:` of its first line, or empty.
pub open spec fn cgroup_path_of(content: Seq<char>) -> Seq<char> {
    let ls = lines(content);
    if ls.len() == 0 {
        Seq::empty()
    } else {
        match split_once_char(ls[0], ':') {
            Some((_, rest)) => match split_once_char(rest, ':') {
                Some((_, path)) => path,
                None => Seq::empty(),
            },
            None => Seq::empty(),
        }
    }
}

/// The command line with its NUL separators as spaces, trimmed.
pub open spec fn cmd_of(cmdline: Seq<char>) -> Seq<char> {
    trim(Seq::new(cmdline.len(), |i: int| if cmdline[i] == '\0' { ' ' } else { cmdline[i] }))
}

/// The resident pages of a stat line fit a `u64` as bytes.
pub open spec fn rss_fits(stat: Seq<char>) -> bool {
    match stat_fields(stat) {
        Some(f) => f.len() >= 40 ==> u64_field(f[21]) * 4096 <= u64::MAX,
        None => true,
    }
}

/// The row of process `pid` from its stat, cmdline, status and cgroup
/// texts and its open descriptor count; `None` for a stat line with fewer
/// than 40 fields after the command name.
pub open spec fn process_of(p: ProcessInfo, pid: u32, stat: Seq<char>, cmdline: Seq<char>, status: Seq<char>, fd_count: i64, cgroup: Seq<char>) -> bool {
    let f = stat_fields(stat)->0;
    &&& p.user@ == uid_of(status)
    &&& p.pid == pid
    &&& p.ppid == i64_field(f[1])
    &&& p.start_time@.len() == 0
    &&& p.rss == u64_field(f[21]) * 4096
    &&& p.virtual_size == u64_field(f[20])
    &&& p.status@ == f[0]
    &&& p.running_time@.len() == 0
    &&& p.cgroup_path@ == cgroup_path_of(cgroup)
    &&& p.cmd@ == cmd_of(cmdline)
    &&& p.fd_count == fd_count
    &&& p.psr == i64_field(f[36])
}

/// Whether the resident size of a stat line fits, as `process_row` needs.
pub fn stat_rss_fits(stat: &str) -> (b: bool)
    ensures
        b == rss_fits(stat@),
{
    let v = chars_of(stat);
    match stat_words(&v) {
        Some((a, ws)) => {
            if ws.len() >= 40 {
                let pages = u64_field_of(&v, ws[21].0, ws[21].1);
                pages <= u64::MAX / 4096
            } else {
                true
            }
        },
        None => true,
    }
}

/// The word ranges after the last `)` of `v`, with that position plus one.
fn stat_words(v: &Vec<char>) -> (r: Option<(usize, Vec<(usize, usize)>)>)
    ensures
        match r {
            Some((a, ws)) => {
                &&& stat_fields(v@) == Some(words(v@.subrange(a as int, v@.len() as int)))
                &&& a <= v@.len()
                &&& ws@.len() == words(v@.subrange(a as int, v@.len() as int)).len()
                &&& forall|j: int| 0 <= j < ws@.len() ==> a <= #[trigger] ws@[j].0 <= ws@[j].1 <= v@.len()
                &&& forall|j: int|
                    0 <= j < ws@.len() ==> #[trigger] v@.subrange(ws@[j].0 as int, ws@[j].1 as int)
                        == words(v@.subrange(a as int, v@.len() as int))[j]
            },
            None => stat_fields(v@) is None,
        },
{
    let mut i = v.len();
    assert(v@.take(i as int) =~= v@);
    while i > 0 && v[i - 1] != ')'
        invariant
            i <= v@.len(),
            last_index(v@, ')') == last_index(v@.take(i as int), ')'),
        decreases i,
    {
        assert(v@.take(i as int).drop_last() =~= v@.take(i - 1));
        i -= 1;
    }
    if i == 0 {
        assert(v@.take(0) =~= Seq::<char>::empty());
        return None;
    }
    assert(last_index(v@.take(i as int), ')') == i - 1);
    assert(v@.skip(i as int) =~= v@.subrange(i as int, v@.len() as int));
    let ws = word_ranges(v, i, v.len());
    Some((i, ws))
}

fn first_prefixed_line(v: &Vec<char>, ls: &Vec<(usize, usize)>, p: &Vec<char>) -> (r: Option<usize>)
    requires
        forall|j: int| 0 <= j < ls@.len() ==> #[trigger] ls@[j].0 <= ls@[j].1 <= v@.len(),
    ensures
        match r {
            Some(j) => j < ls@.len() && first_with_prefix(
                Seq::new(ls@.len() as nat, |k: int| v@.subrange(ls@[k].0 as int, ls@[k].1 as int)),
                p@,
            ) == Some(v@.subrange(ls@[j as int].0 as int, ls@[j as int].1 as int)),
            None => first_with_prefix(
                Seq::new(ls@.len() as nat, |k: int| v@.subrange(ls@[k].0 as int, ls@[k].1 as int)),
                p@,
            ) is None,
        },
{
    let ghost all = Seq::new(ls@.len() as nat, |k: int| v@.subrange(ls@[k].0 as int, ls@[k].1 as int));
    let mut i: usize = 0;
    assert(all.skip(0) =~= all);
    while i < ls.len()
        invariant
            i <= ls@.len() == all.len(),
            all == Seq::new(ls@.len() as nat, |k: int| v@.subrange(ls@[k].0 as int, ls@[k].1 as int)),
            forall|j: int| 0 <= j < ls@.len() ==> #[trigger] ls@[j].0 <= ls@[j].1 <= v@.len(),
            first_with_prefix(all, p@) == first_with_prefix(all.skip(i as int), p@),
        decreases ls.len() - i,
    {
        let (lo, hi) = ls[i];
        assert(all.skip(i as int)[0] == all[i as int]);
        assert(all.skip(i as int).drop_first() =~= all.skip(i + 1));
        if crate::text::range_starts_with(v, lo, hi, p) {
            return Some(i);
        }
        i += 1;
    }
    assert(all.skip(i as int) =~= Seq::<Seq<char>>::empty());
    None
}

fn uid_text(status: &str) -> (u: String)
    ensures
        u@ == uid_of(status@),
{
    let (v, ls) = lines_of(status);
    let p = chars_of("Uid:");
    proof {
        reveal_strlit("Uid:");
        assert(Seq::new(ls@.len() as nat, |k: int| v@.subrange(ls@[k].0 as int, ls@[k].1 as int)) =~= lines(status@));
    }
    match first_prefixed_line(&v, &ls, &p) {
        Some(j) => {
            let (lo, hi) = ls[j];
            let ghost l = v@.subrange(lo as int, hi as int);
            proof {
                lemma_first_with_prefix(lines(status@), "Uid:"@);
            }
            assert(starts_with(l, "Uid:"@));
            assert(l.skip(4) =~= v@.subrange(lo + 4, hi as int));
            let ws = word_ranges(&v, lo + 4, hi);
            if ws.len() > 0 {
                string_of(&v, ws[0].0, ws[0].1)
            } else {
                String::new()
            }
        },
        None => String::new(),
    }
}

fn cgroup_path_text(content: &str) -> (r: String)
    ensures
        r@ == cgroup_path_of(content@),
{
    let (v, ls) = lines_of(content);
    if ls.len() == 0 {
        return String::new();
    }
    let (lo, hi) = ls[0];
    let ghost l = v@.subrange(lo as int, hi as int);
    match find_char_in(&v, lo, hi, ':') {
        Some(a) => {
            assert(l.skip(a - lo + 1) =~= v@.subrange(a + 1, hi as int));
            match find_char_in(&v, a + 1, hi, ':') {
                Some(b) => {
                    assert(v@.subrange(a + 1, hi as int).skip(b - (a + 1) + 1) =~= v@.subrange(b + 1, hi as int));
                    string_of(&v, b + 1, hi)
                },
                None => String::new(),
            }
        },
        None => String::new(),
    }
}

fn cmd_text(cmdline: &str) -> (r: String)
    ensures
        r@ == cmd_of(cmdline@),
{
    let v = chars_of(cmdline);
    let mut w: Vec<char> = Vec::new();
    let mut i: usize = 0;
    while i < v.len()
        invariant
            i <= v@.len(),
            w@ == Seq::new(i as nat, |k: int| if v@[k] == '\0' { ' ' } else { v@[k] }),
        decreases v.len() - i,
    {
        let c = if v[i] == '\0' { ' ' } else { v[i] };
        w.push(c);
        assert(w@ =~= Seq::new((i + 1) as nat, |k: int| if v@[k] == '\0' { ' ' } else { v@[k] }));
        i += 1;
    }
    let (a, b) = trim_range(&w, 0, w.len());
    assert(w@.subrange(0, w@.len() as int) =~= w@);
    string_of(&w, a, b)
}

/// The row of process `pid` from the texts of its `/proc` entries (empty
/// where one could not be read) and its open descriptor count.
pub fn process_row(pid: u32, stat: &str, cmdline: &str, status: &str, fd_count: i64, cgroup: &str) -> (r: Option<ProcessInfo>)
    requires
        rss_fits(stat@),
    ensures
        r is Some <==> (stat_fields(stat@) matches Some(f) && f.len() >= 40),
        r matches Some(p) ==> process_of(p, pid, stat@, cmdline@, status@, fd_count, cgroup@),
{
    let v = chars_of(stat);
    let (a, ws) = match stat_words(&v) {
        Some(x) => x,
        None => {
            return None;
        },
    };
    if ws.len() < 40 {
        return None;
    }
    let ghost f = words(v@.subrange(a as int, v@.len() as int));
    let state = string_of(&v, ws[0].0, ws[0].1);
    let ppid = i64_field_of(&v, ws[1].0, ws[1].1);
    let vsize = u64_field_of(&v, ws[20].0, ws[20].1);
    let pages = u64_field_of(&v, ws[21].0, ws[21].1);
    let psr = i64_field_of(&v, ws[36].0, ws[36].1);
    assert(f[21] == v@.subrange(ws@[21].0 as int, ws@[21].1 as int));
    Some(
        ProcessInfo {
            user: uid_text(status),
            pid: pid as i64,
            ppid,
            start_time: String::new(),
            rss: pages * 4096,
            virtual_size: vsize,
            status: state,
            running_time: String::new(),
            cgroup_path: cgroup_path_text(cgroup),
            cmd: cmd_text(cmdline),
            fd_count,
            psr,
        },
    )
}

} // verus!
