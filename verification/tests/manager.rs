use std::sync::Arc;

use cadvisor::fs::{FsService, FsUsage, Partition};
use cadvisor::host::{CgroupSpec, HostError};
use cadvisor::manager::{
    after_sample, build_spec, cgroup_basename, direct_children, docker_lookup, fill_root_stats, is_mount_unit,
    meminfo_totals, place_container, refresh_spec, rootfs_entry, slow_path_due, sort_names, subcontainer_names,
    subtree, sweep_plan, with_network, ManagerConfig, ManagerError,
};
use cadvisor::model::{ContainerReference, ContainerStats, GoTime, InterfaceStats, MachineInfo, NetInfo, Span};
use cadvisor::parse::DiskStatsLine;
use cadvisor::runtime::ContainerMeta;

fn sv(v: &[&str]) -> Vec<String> {
    v.iter().map(|s| s.to_string()).collect()
}

fn cg() -> CgroupSpec {
    CgroupSpec {
        creation_time: Some(GoTime { secs: 1_700_000_000, nanos: 0 }),
        has_cpu: true,
        cpu_shares: 2597,
        cpu_quota: Some(50_000),
        cpu_period: 100_000,
        cpu_mask: "0-3".to_string(),
        has_memory: false,
        memory_limit: 1 << 30,
        swap_limit: 0,
        memory_reservation: 0,
        has_processes: true,
        pids_limit: 100,
        has_disk_io: true,
    }
}

fn machine() -> MachineInfo {
    MachineInfo {
        memory_capacity: 16 << 30,
        swap_capacity: 8 << 30,
        network_devices: vec![NetInfo { name: "eth0".to_string(), mac_address: String::new(), speed: 0, mtu: 1500 }],
        ..Default::default()
    }
}

#[test]
fn specs_from_cgroups() {
    let s = build_spec(&cg(), "/a", &machine());
    assert_eq!(s.cpu.limit, 2597);
    assert_eq!(s.cpu.quota, 50_000);
    assert_eq!(s.cpu.period, 100_000);
    assert!(!s.has_memory);
    assert!(!s.has_network);
    let r = build_spec(&cg(), "/", &machine());
    assert!(r.has_memory && r.has_network && r.has_filesystem);
    assert_eq!(r.cpu.period, 0);
    assert_eq!(r.memory.limit, 16 << 30);
    assert_eq!(r.memory.swap_limit, 8 << 30);
    let mut s2 = s.clone();
    let mut fresh = cg();
    fresh.has_memory = true;
    fresh.cpu_quota = None;
    fresh.pids_limit = 7;
    refresh_spec(&mut s2, &fresh);
    assert!(s2.has_memory);
    assert_eq!(s2.cpu.quota, 0);
    assert_eq!(s2.processes.limit, 7);
}

fn stats(total: u64, mem: u64, ooms: u64) -> ContainerStats {
    let mut s = ContainerStats::default();
    s.cpu.usage.total = total;
    s.memory.usage = mem;
    s.oom_events = ooms;
    s
}

#[test]
fn adaptive_housekeeping() {
    let cfg = ManagerConfig::default_config("v");
    let one = Span { secs: 1, nanos: 0 };
    let prev = Some(Arc::new(stats(10, 20, 0)));
    let a = after_sample(&cfg, one, &prev, &stats(10, 20, 0));
    assert_eq!(a.interval, Span { secs: 2, nanos: 0 });
    assert!(!a.record_oom);
    let a = after_sample(&cfg, Span { secs: 40, nanos: 0 }, &prev, &stats(10, 20, 1));
    assert_eq!(a.interval, Span { secs: 60, nanos: 0 });
    assert!(a.record_oom);
    let a = after_sample(&cfg, Span { secs: 40, nanos: 0 }, &prev, &stats(11, 20, 0));
    assert_eq!(a.interval, one);
    let a = after_sample(&cfg, Span { secs: 8, nanos: 0 }, &None, &stats(11, 20, 0));
    assert_eq!(a.interval, one);
    assert!(slow_path_due(true, Span { secs: 0, nanos: 0 }));
    assert!(!slow_path_due(false, Span { secs: 59, nanos: 999_999_999 }));
    assert!(slow_path_due(false, Span { secs: 60, nanos: 0 }));
}

#[test]
fn discovery_names() {
    assert_eq!(cgroup_basename("/system.slice/crio-abc.scope"), "crio-abc.scope");
    assert_eq!(cgroup_basename("/"), "");
    assert_eq!(cgroup_basename("plain"), "plain");
    assert!(is_mount_unit("/system.slice/boot.mount"));
    assert!(!is_mount_unit("/system.slice/mount.service"));
    let names = sv(&["/b", "/", "/a/x", "/a", "/a/x/y", "/ab"]);
    assert_eq!(sort_names(&names), sv(&["/", "/a", "/a/x", "/a/x/y", "/ab", "/b"]));
    assert_eq!(subtree(&names, "/a"), sv(&["/a", "/a/x", "/a/x/y"]));
    let kids: Vec<String> = direct_children(&names, "/").into_iter().map(|r| r.name).collect();
    assert_eq!(kids, sv(&["/a", "/ab", "/b"]));
    let kids: Vec<String> = direct_children(&names, "/a").into_iter().map(|r| r.name).collect();
    assert_eq!(kids, sv(&["/a/x"]));
}

#[test]
fn placing_containers() {
    let mut spec = build_spec(&cg(), "/", &machine());
    let p = place_container("/", &mut spec, None);
    assert_eq!(p.reference.name, "/");
    assert_eq!(p.init_pid, Some(1));
    assert!(p.reports_network);
    let mut spec = build_spec(&cg(), "/a", &machine());
    let meta = ContainerMeta {
        id: "abc".to_string(),
        namespace: "crio".to_string(),
        aliases: sv(&["web", "abc"]),
        image: "busybox".to_string(),
        labels: vec![("app".to_string(), "web".to_string())],
        init_pid: Some(42),
        reports_network: false,
        rootfs_diff: Some("/var/lib/x/diff".to_string()),
    };
    let p = place_container("/a", &mut spec, Some(meta));
    assert_eq!(p.reference.id, "abc");
    assert_eq!(p.reference.namespace, "crio");
    assert_eq!(p.init_pid, Some(42));
    assert!(!p.reports_network);
    assert_eq!(spec.image, "busybox");
    assert!(spec.has_filesystem);
    assert_eq!(p.rootfs_diff.as_deref(), Some("/var/lib/x/diff"));
}

#[test]
fn root_memory_from_meminfo() {
    assert_eq!(meminfo_totals("MemTotal: 100 kB\nMemFree: 40 kB\nMemFree: 30 kB\n"), (100, 30));
    assert_eq!(meminfo_totals("MemTotal:\nBuffers: 1 kB\n"), (0, 0));
    let fs = FsService { partitions: vec![] };
    let mut s = ContainerStats::default();
    fill_root_stats(&mut s, Some((100, 40)), &fs, &vec![], &vec![]);
    assert_eq!(s.memory.usage, 60 * 1024);
    assert_eq!(s.memory.working_set, 60 * 1024);
    let mut t = stats(0, 5, 0);
    fill_root_stats(&mut t, Some((100, 40)), &fs, &vec![], &vec![]);
    assert_eq!(t.memory.usage, 5);
    let mut u = ContainerStats::default();
    fill_root_stats(&mut u, Some((10, 40)), &fs, &vec![], &vec![]);
    assert_eq!(u.memory.usage, 0);
}

fn part(dev: &str, mp: &str, major: u64, minor: u64) -> Partition {
    Partition { device: dev.to_string(), mountpoint: mp.to_string(), fs_type: "ext4".to_string(), major, minor }
}

fn usage(cap: u64, free: u64) -> FsUsage {
    FsUsage { capacity: cap, free, available: free / 2, inodes: 1000, inodes_free: 900 }
}

fn disk(major: u64, minor: u64, reads: u64) -> DiskStatsLine {
    DiskStatsLine {
        major,
        minor,
        name: "sda".to_string(),
        reads_completed: reads,
        reads_merged: 0,
        sectors_read: 0,
        read_time: 5,
        writes_completed: 0,
        writes_merged: 0,
        sectors_written: 0,
        write_time: 0,
        io_in_progress: 0,
        io_time: 0,
        weighted_io_time: 0,
    }
}

#[test]
fn root_filesystems() {
    let fs = FsService { partitions: vec![part("/dev/sda1", "/", 8, 1), part("/dev/sdb", "/data", 8, 16), part("tmpfs", "/tmp", 0, 40)] };
    let usages = vec![Some(usage(1000, 400)), None, Some(usage(50, 50))];
    let disks = vec![disk(8, 1, 7), disk(8, 1, 9)];
    let mut s = ContainerStats::default();
    fill_root_stats(&mut s, None, &fs, &usages, &disks);
    assert_eq!(s.filesystem.len(), 2);
    assert_eq!(s.filesystem[0].device, "/dev/sda1");
    assert_eq!(s.filesystem[0].fs_type, "vfs");
    assert_eq!(s.filesystem[0].limit, 1000);
    assert_eq!(s.filesystem[0].usage, 600);
    assert_eq!(s.filesystem[0].reads_completed, 9);
    assert_eq!(s.filesystem[0].read_time, 5);
    assert_eq!(s.filesystem[1].device, "tmpfs");
    assert_eq!(s.filesystem[1].usage, 0);
    assert_eq!(s.filesystem[1].reads_completed, 0);
}

#[test]
fn sample_extras() {
    let mut s = ContainerStats::default();
    let eth = InterfaceStats { name: "eth0".to_string(), rx_bytes: 5, ..Default::default() };
    with_network(&mut s, vec![eth.clone(), InterfaceStats { name: "eth1".to_string(), ..Default::default() }]);
    assert_eq!(s.network.interface, eth);
    assert_eq!(s.network.interfaces.len(), 2);
    with_network(&mut s, vec![]);
    assert_eq!(s.network.interface, eth);
    assert!(s.network.interfaces.is_empty());
    let row = rootfs_entry(&part("/dev/sda1", "/", 8, 1), &usage(1000, 400), 77);
    assert_eq!(row.usage, 77);
    assert_eq!(row.base_usage, 77);
    assert_eq!(row.limit, 1000);
    assert_eq!(row.available, 200);
    assert!(row.has_inodes);
}

fn refr(id: &str, ns: &str, aliases: &[&str]) -> ContainerReference {
    ContainerReference { id: id.to_string(), name: String::new(), aliases: sv(aliases), namespace: ns.to_string() }
}

#[test]
fn lookups_and_errors() {
    let names = sv(&["/", "/a", "/a/b"]);
    assert_eq!(subcontainer_names(&names, "/a").ok().unwrap(), sv(&["/a", "/a/b"]));
    let e = subcontainer_names(&names, "/z").err().unwrap();
    assert_eq!(e.message(), "unknown container \"/z\"");
    let refs = vec![refr("", "", &[]), refr("abc", "containerd", &["web"]), refr("", "", &[])];
    assert_eq!(docker_lookup(&names, &refs, "ab").ok().unwrap(), sv(&["/a"]));
    assert_eq!(docker_lookup(&names, &refs, "").ok().unwrap(), sv(&["/a"]));
    assert!(docker_lookup(&names, &refs, "nope").is_err());
    let h = ManagerError::Host(HostError::parse("cpu.max", "bad".to_string()));
    assert_eq!(h.message(), "parsing cpu.max: bad");
}

#[test]
fn sweeps() {
    let p = sweep_plan(&sv(&["/", "/a", "/c"]), &sv(&["/", "/a", "/b"]));
    assert_eq!(p.add, sv(&["/c"]));
    assert_eq!(p.remove_if_gone, sv(&["/b"]));
    let q = sweep_plan(&sv(&[]), &sv(&["/", "/x"]));
    assert_eq!(q.remove_if_gone, sv(&["/x"]));
}
