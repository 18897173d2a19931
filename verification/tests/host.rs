use cadvisor::host::{parse_procs, spec_from_files, stats_from_files, CgroupReader, HostError, SpecFiles, StatsFiles};
use cadvisor::model::GoTime;

#[test]
fn cgroup_paths() {
    let r = CgroupReader::new("/sys/fs/cgroup");
    assert_eq!(r.dir("/system.slice/a.service"), "/sys/fs/cgroup/system.slice/a.service");
    assert_eq!(r.file("/user.slice", "cpu.stat"), "/sys/fs/cgroup/user.slice/cpu.stat");
    assert_eq!(CgroupReader::new("/tmp/cg/").dir("x"), "/tmp/cg/x");
    assert_eq!(CgroupReader::default_reader().dir("/a"), "/sys/fs/cgroup/a");
}

#[test]
fn procs_are_listed() {
    assert_eq!(parse_procs("1\n23\n\n456\n"), vec![1, 23, 456]);
    assert_eq!(parse_procs(""), Vec::<u32>::new());
}

#[test]
fn stats_from_cgroup_files() {
    let files = StatsFiles {
        cpu_stat: Some("usage_usec 10\nuser_usec 4\nsystem_usec 6\nnr_periods 3\nnr_throttled 1\nthrottled_usec 7\n".to_string()),
        memory_current: Some("1000\n".to_string()),
        memory_peak: Some("max\n".to_string()),
        memory_swap_current: None,
        memory_stat: Some("anon 300\nfile 200\nfile_mapped 50\ninactive_file 150\npgfault 9\npgmajfault 2\n".to_string()),
        memory_events: Some("low 0\nhigh 0\nmax 4\noom 1\noom_kill 2\n".to_string()),
        io_stat: Some("8:0 rbytes=100 wbytes=200 rios=1 wios=2\n".to_string()),
    };
    let t = GoTime { secs: 1_700_000_000, nanos: 5 };
    let s = stats_from_files(&files, t);
    assert_eq!(s.timestamp, t);
    assert_eq!(s.cpu.usage.total, 10_000);
    assert_eq!(s.cpu.usage.user, 4_000);
    assert_eq!(s.cpu.cfs.throttled_time, 7_000);
    assert_eq!(s.memory.usage, 1000);
    assert_eq!(s.memory.max_usage, u64::MAX);
    assert_eq!(s.memory.working_set, 850);
    assert_eq!(s.memory.cache, 200);
    assert_eq!(s.memory.rss, 300);
    assert_eq!(s.memory.container_data.pgfault, 9);
    assert_eq!(s.oom_events, 2);
    assert_eq!(s.disk_io.io_service_bytes.len(), 1);
    assert_eq!(s.disk_io.io_service_bytes[0].stats, vec![("Read".to_string(), 100), ("Write".to_string(), 200)]);
    assert_eq!(s.disk_io.io_serviced[0].stats, vec![("Read".to_string(), 1), ("Write".to_string(), 2)]);
}

#[test]
fn working_set_never_negative_and_absent_files() {
    let files = StatsFiles {
        cpu_stat: None,
        memory_current: Some("100".to_string()),
        memory_peak: None,
        memory_swap_current: None,
        memory_stat: Some("inactive_file 500\n".to_string()),
        memory_events: None,
        io_stat: None,
    };
    let s = stats_from_files(&files, GoTime::zero());
    assert_eq!(s.memory.working_set, 0);
    assert_eq!(s.cpu.usage.total, 0);
    assert!(s.disk_io.io_service_bytes.is_empty());
}

#[test]
fn spec_from_cgroup_files() {
    let files = SpecFiles {
        creation_time: None,
        memory_max_exists: true,
        cpu_weight: Some("100\n".to_string()),
        cpu_max: Some("50000 100000\n".to_string()),
        cpuset_effective: Some("0-3\n".to_string()),
        memory_max: Some("max\n".to_string()),
        memory_swap_max: Some("1024\n".to_string()),
        memory_low: None,
        pids_max: Some("max".to_string()),
    };
    let s = spec_from_files(&files, "/a");
    assert!(s.has_cpu && s.has_memory && s.has_processes && s.has_disk_io);
    assert_eq!(s.cpu_shares, 2597);
    assert_eq!((s.cpu_quota, s.cpu_period), (Some(50_000), 100_000));
    assert_eq!(s.cpu_mask, "0-3");
    assert_eq!(s.memory_limit, u64::MAX);
    assert_eq!(s.swap_limit, 1024);
    assert_eq!(s.memory_reservation, 0);
    assert_eq!(s.pids_limit, u64::MAX);
    let root = SpecFiles { memory_max_exists: false, cpu_weight: None, cpu_max: None, ..files };
    let r = spec_from_files(&root, "/");
    assert!(r.has_memory);
    assert_eq!(r.cpu_shares, 0);
}

#[test]
fn host_error_messages() {
    let e = HostError::io("/sys/fs/cgroup/x/cpu.stat", true, "No such file or directory".to_string());
    assert!(e.is_not_found());
    assert_eq!(e.message(), "reading /sys/fs/cgroup/x/cpu.stat: No such file or directory");
    let p = HostError::parse("cpu.max", "bad".to_string());
    assert!(!p.is_not_found());
    assert_eq!(p.message(), "parsing cpu.max: bad");
}
