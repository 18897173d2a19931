use std::sync::Arc;

use cadvisor::fs::{FsService, FsUsage, Partition};
use cadvisor::model::{ContainerReference, ContainerSpec, ContainerStats, CpuInstStats, FsStats, GoTime, MachineInfo, VersionInfo};
use cadvisor::parse::DiskStatsLine;
use cadvisor::v2::{
    deprecated_stats, derived_stats, machine_fs_stats, machine_stats, process_row, stat_rss_fits, storage_info,
    v2_spec, v2_stats, with_label, Attributes,
};

fn spec() -> ContainerSpec {
    let mut s = ContainerSpec::default();
    s.has_cpu = true;
    s.has_memory = true;
    s.has_filesystem = true;
    s.cpu.limit = 1024;
    s.cpu.quota = 5;
    s.cpu.period = 7;
    s.processes.limit = 9;
    s
}

fn sample(secs: i64, ws: u64) -> ContainerStats {
    let mut s = ContainerStats::default();
    s.timestamp = GoTime { secs, nanos: 0 };
    s.memory.working_set = ws;
    s
}

#[test]
fn v2_specs_drop_quota_period_and_pids() {
    let r = ContainerReference { id: "abc".to_string(), name: "/a".to_string(), aliases: vec!["web".to_string()], namespace: "crio".to_string() };
    let v = v2_spec(spec(), r);
    assert_eq!(v.cpu.limit, 1024);
    assert_eq!(v.cpu.quota, 0);
    assert_eq!(v.cpu.period, 0);
    assert_eq!(v.processes.limit, 0);
    assert_eq!(v.aliases, vec!["web".to_string()]);
    assert_eq!(v.namespace, "crio");
}

#[test]
fn v2_samples_follow_the_spec() {
    let mut a = sample(1, 10);
    a.filesystem = vec![FsStats { usage: 55, base_usage: 44, ..Default::default() }];
    let b = sample(2, 20);
    let out = v2_stats(vec![a, b], &spec(), 3, vec![None, Some(CpuInstStats::default())]);
    assert_eq!(out.len(), 2);
    assert!(out[0].cpu.is_some());
    assert!(out[0].disk_io.is_none());
    assert!(out[0].network.is_none());
    assert!(out[0].load.is_none());
    let fs0 = out[0].filesystem.unwrap();
    assert_eq!((fs0.total_usage_bytes, fs0.base_usage_bytes, fs0.inode_usage), (Some(55), Some(44), Some(3)));
    let fs1 = out[1].filesystem.unwrap();
    assert_eq!(fs1.total_usage_bytes, None);
    assert!(out[0].cpu_inst.is_none() && out[1].cpu_inst.is_some());
    let old = deprecated_stats(out, &spec());
    assert!(old[0].has_cpu && !old[0].has_disk_io && !old[0].has_load);
    assert!(old[0].disk_io.io_service_bytes.is_empty());
    assert!(old[0].filesystem.is_empty());
    assert_eq!(old[1].memory.working_set, 20);
}

fn part(dev: &str, mp: &str) -> Partition {
    Partition { device: dev.to_string(), mountpoint: mp.to_string(), fs_type: "ext4".to_string(), major: 8, minor: 1 }
}

#[test]
fn storage_and_machine_filesystems() {
    let fs = FsService { partitions: vec![part("/dev/sda1", "/"), part("/dev/sdb1", "/data")] };
    let u = FsUsage { capacity: 100, free: 30, available: 20, inodes: 10, inodes_free: 4 };
    let now = GoTime { secs: 5, nanos: 0 };
    let rows = storage_info(&fs, &vec![Some(u), Some(u)], now);
    assert_eq!(rows.len(), 2);
    assert_eq!(rows[0].usage, 70);
    assert_eq!(rows[0].labels, Some(vec!["root".to_string()]));
    assert_eq!(rows[1].labels, None);
    assert_eq!(rows[1].timestamp, now);
    let root = with_label(rows, "root");
    assert_eq!(root.len(), 1);
    assert_eq!(root[0].mountpoint, "/");
    let disk = DiskStatsLine { major: 8, minor: 1, read_time: 3, ..Default::default() };
    let m = machine_fs_stats(&fs, &vec![None, Some(u)], &vec![disk]);
    assert_eq!(m.len(), 1);
    assert_eq!(m[0].device, "/dev/sdb1");
    assert_eq!(m[0].fs_type, "vfs");
    assert_eq!(m[0].usage, Some(70));
    assert_eq!(m[0].disk_stats.read_duration, Some(3_000_000));
    assert_eq!(m[0].disk_stats.reads_completed, Some(0));
    let ms = machine_stats(v2_stats(vec![sample(1, 1)], &spec(), 0, vec![None]), &m);
    assert_eq!(ms.len(), 1);
    assert_eq!(ms[0].filesystem.len(), 1);
    assert!(ms[0].load.is_none());
}

#[test]
fn summaries() {
    let samples: Vec<Arc<ContainerStats>> = (0..6).map(|i| Arc::new(sample(i, 100 * (i as u64 + 1)))).collect();
    let totals = vec![None, Some(3_000_000), None, Some(1_000_000), Some(2_500_000), Some(9_000_000)];
    let d = derived_stats(&samples, &totals, GoTime::zero());
    assert_eq!(d.timestamp, GoTime { secs: 5, nanos: 0 });
    assert_eq!(d.latest_usage.cpu, 9);
    assert_eq!(d.latest_usage.memory, 600);
    assert_eq!(d.minute_usage.percent_complete, 10);
    assert_eq!(d.minute_usage.cpu.max, 9);
    assert_eq!(d.minute_usage.memory.mean, 350);
    assert!(!d.hour_usage.cpu.present);
    let none = derived_stats(&vec![], &vec![], GoTime { secs: 9, nanos: 0 });
    assert_eq!(none.timestamp, GoTime { secs: 9, nanos: 0 });
    assert_eq!(none.latest_usage.cpu, 0);
}

fn stat_line(pid: u32) -> String {
    let mut f: Vec<String> = (0..44).map(|i| i.to_string()).collect();
    f[0] = "S".to_string();
    f[1] = "1".to_string();
    f[20] = "12345".to_string();
    f[21] = "3".to_string();
    f[36] = "2".to_string();
    format!("{pid} (my (odd) cmd) {}", f.join(" "))
}

#[test]
fn process_rows() {
    let stat = stat_line(42);
    assert!(stat_rss_fits(&stat));
    let p = process_row(42, &stat, "sleep\u{0}100\u{0}", "Name:\tsleep\nUid:\t1000\t1000\t1000\t1000\n", 5, "0::/user.slice/a:b\n").unwrap();
    assert_eq!(p.pid, 42);
    assert_eq!(p.ppid, 1);
    assert_eq!(p.status, "S");
    assert_eq!(p.virtual_size, 12345);
    assert_eq!(p.rss, 3 * 4096);
    assert_eq!(p.psr, 2);
    assert_eq!(p.user, "1000");
    assert_eq!(p.cmd, "sleep 100");
    assert_eq!(p.cgroup_path, "/user.slice/a:b");
    assert_eq!(p.fd_count, 5);
    assert!(process_row(1, "1 (x) S 0 1", "", "", 0, "").is_none());
    assert!(process_row(1, "no paren", "", "", 0, "").is_none());
    let q = process_row(7, &stat_line(7), "", "", 0, "").unwrap();
    assert_eq!(q.user, "");
    assert_eq!(q.cgroup_path, "");
    assert_eq!(q.cmd, "");
}

#[test]
fn attributes_copy_machine_and_versions() {
    let mi = MachineInfo { num_cores: 8, machine_id: "m".to_string(), cloud_provider: "Unknown".to_string(), ..Default::default() };
    let vi = VersionInfo { kernel_version: "6.1".to_string(), cadvisor_version: "0.1.0".to_string(), ..Default::default() };
    let a = Attributes::new(mi, vi);
    assert_eq!(a.num_cores, 8);
    assert_eq!(a.machine_id, "m");
    assert_eq!(a.kernel_version, "6.1");
    assert_eq!(a.cadvisor_version, "0.1.0");
    assert_eq!(a.cloud_provider, "Unknown");
}
