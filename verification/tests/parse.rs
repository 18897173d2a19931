use cadvisor::parse::{
    cpu_weight_to_shares, diskstats_device_matches, parse_cpu_max, parse_cpu_stat, parse_cpuinfo, parse_diskstats,
    parse_io_stat, parse_memory_stat, parse_meminfo, parse_mountinfo, parse_proc_net_dev, parse_tcp_states,
    parse_u64_or_max, parse_udp_stats, IoDevStat,
};

const CPU_STAT: &str = "usage_usec 8884177\n\
user_usec 4314716\n\
system_usec 4569460\n\
core_sched.force_idle_usec 0\n\
nr_periods 0\n\
nr_throttled 0\n\
throttled_usec 0\n\
nr_bursts 0\n\
burst_usec 0\n";

const MEMORY_STAT: &str = "anon 278528\n\
file 4096\n\
kernel 118784\n\
kernel_stack 16384\n\
pagetables 4096\n\
sock 0\n\
shmem 0\n\
file_mapped 0\n\
file_dirty 0\n\
file_writeback 0\n\
swapcached 0\n\
inactive_anon 274432\n\
active_anon 4096\n\
inactive_file 4096\n\
active_file 0\n\
unevictable 0\n\
pgfault 1419\n\
pgmajfault 0\n";

const NET_DEV: &str = "Inter-|   Receive                                                |  Transmit\n \
face |bytes    packets errs drop fifo frame compressed multicast|bytes    packets errs drop fifo colls carrier compressed\n    \
lo:    1400      14    0    0    0     0          0         0     1400      14    0    0    0     0       0          0\n  \
eth0:    8513      76    0    0    0     0          0         0      908      12    0    0    0     0       0          0\n";

const CPUINFO: &str = "processor\t: 0\n\
vendor_id\t: GenuineIntel\n\
cpu family\t: 6\n\
model name\t: Intel(R) Core(TM) i7-4770 CPU @ 3.40GHz\n\
cpu MHz\t\t: 3494.400\n\
physical id\t: 0\n\
core id\t\t: 0\n\
\n\
processor\t: 1\n\
vendor_id\t: GenuineIntel\n\
cpu MHz\t\t: 3400.000\n\
physical id\t: 0\n\
core id\t\t: 1\n\
\n\
processor\t: 2\n\
vendor_id\t: GenuineIntel\n\
cpu MHz\t\t: 3400.000\n\
physical id\t: 0\n\
core id\t\t: 2\n\
\n\
processor\t: 3\n\
vendor_id\t: GenuineIntel\n\
cpu MHz\t\t: 3400.000\n\
physical id\t: 0\n\
core id\t\t: 3\n\
\n\
processor\t: 4\n\
vendor_id\t: GenuineIntel\n\
cpu MHz\t\t: 3400.000\n\
physical id\t: 0\n\
core id\t\t: 4\n\
\n\
processor\t: 5\n\
vendor_id\t: GenuineIntel\n\
cpu MHz\t\t: 3400.000\n\
physical id\t: 0\n\
core id\t\t: 5\n\
\n\
processor\t: 6\n\
vendor_id\t: GenuineIntel\n\
cpu MHz\t\t: 3400.000\n\
physical id\t: 0\n\
core id\t\t: 6\n\
\n\
processor\t: 7\n\
vendor_id\t: GenuineIntel\n\
cpu MHz\t\t: 3400.000\n\
physical id\t: 0\n\
core id\t\t: 7\n\
\n\
processor\t: 8\n\
vendor_id\t: GenuineIntel\n\
cpu MHz\t\t: 3400.000\n\
physical id\t: 0\n\
core id\t\t: 0\n";

const MEMINFO: &str = "MemTotal:       16342752 kB\n\
MemFree:         9021344 kB\n\
MemAvailable:   13211908 kB\n\
Buffers:            4132 kB\n\
Cached:          4172876 kB\n\
SwapCached:            0 kB\n\
SwapTotal:       8388604 kB\n\
SwapFree:        8388604 kB\n";

const DISKSTATS: &str = "   8       0 sda 880123 2054 93381682 1036874 1520441 1044326 210447608 132051716 0 1712553 133243114 0 0 0 0 80 154524\n   \
8       1 sda1 512 0 8706 177 2 0 2 1 0 105 178 0 0 0 0 0 0\n  \
11       0 sr0 14 0 3 1 0 0 0 0 0 10 1 0 0 0 0 0 0\n   \
7       0 loop0 0 0 0 0 0 0 0 0 0 0 0 0 0 0 0 0 0\n";

const MOUNTINFO: &str = "22 98 0:21 / /proc rw,nosuid,nodev,noexec,relatime shared:12 - proc proc rw\n\
23 98 0:22 / /sys rw,nosuid,nodev,noexec,relatime shared:2 - sysfs sysfs rw,seclabel\n\
98 1 0:33 /root / rw,relatime shared:1 - btrfs /dev/sda4 rw,seclabel,compress=zstd:1,ssd,space_cache=v2,subvolid=257,subvol=/root\n\
67 98 8:2 / /boot rw,relatime shared:58 - ext4 /dev/sda2 rw,seclabel\n";

#[test]
fn cpu_stat_real_fixture() {
    let c = parse_cpu_stat(CPU_STAT);
    assert_eq!(c.usage_usec, 8_884_177);
    assert_eq!(c.user_usec, 4_314_716);
    assert_eq!(c.system_usec, 4_569_460);
}

#[test]
fn memory_stat_real_fixture() {
    let m = parse_memory_stat(MEMORY_STAT);
    assert_eq!(m.anon, 278_528);
    assert_eq!(m.file, 4_096);
    assert!(m.pgfault > 0);
}

#[test]
fn u64_or_max() {
    assert_eq!(parse_u64_or_max("max\n"), u64::MAX);
    assert_eq!(parse_u64_or_max("1867776\n"), 1_867_776);
}

#[test]
fn cpu_max_variants() {
    assert_eq!(parse_cpu_max("max 100000\n"), (None, 100_000));
    assert_eq!(parse_cpu_max("50000 100000\n"), (Some(50_000), 100_000));
}

#[test]
fn weight_to_shares_matches_v0492() {
    assert_eq!(cpu_weight_to_shares(100), 2597);
    assert_eq!(cpu_weight_to_shares(1), 2);
    assert_eq!(cpu_weight_to_shares(10000), 262144);
}

#[test]
fn io_stat_rows() {
    let rows = parse_io_stat("259:0 rbytes=1024 wbytes=2048 rios=3 wios=4 dbytes=0 dios=0\n8:16 rbytes=5 wbytes=6 rios=7 wios=8\n");
    assert_eq!(rows.len(), 2);
    assert_eq!(rows[0], IoDevStat { major: 259, minor: 0, rbytes: 1024, wbytes: 2048, rios: 3, wios: 4 });
    assert_eq!(parse_io_stat(""), vec![]);
}

#[test]
fn net_dev_skips_lo_and_parses_eth0() {
    let ifaces = parse_proc_net_dev(NET_DEV);
    assert_eq!(ifaces.len(), 1);
    let eth0 = &ifaces[0];
    assert_eq!(eth0.name, "eth0");
    assert_eq!(eth0.rx_bytes, 8513);
    assert_eq!(eth0.rx_packets, 76);
    assert_eq!(eth0.tx_bytes, 908);
    assert_eq!(eth0.tx_packets, 12);
}

#[test]
fn tcp_state_counting() {
    let data = "  sl  local_address rem_address   st ...\n\
         0: 0100007F:0016 00000000:0000 0A 00000000:00000000 00:00000000 00000000     0        0 1 1 c0\n\
         1: 0100007F:AAAA 0100007F:0016 01 00000000:00000000 00:00000000 00000000     0        0 2 1 c0\n\
         2: 0100007F:BBBB 0100007F:0016 06 00000000:00000000 00:00000000 00000000     0        0 3 1 c0\n";
    let tcp = parse_tcp_states(data);
    assert_eq!(tcp.listen, 1);
    assert_eq!(tcp.established, 1);
    assert_eq!(tcp.time_wait, 1);
}

#[test]
fn udp_stats() {
    let data = "  sl  local_address rem_address   st tx_queue rx_queue tr tm->when retrnsmt   uid  timeout inode ref pointer drops\n\
         0: 0100007F:0035 00000000:0000 07 00000010:00000020 00:00000000 00000000     0        0 123 2 ffff 5\n";
    let udp = parse_udp_stats(data);
    assert_eq!(udp.listen, 1);
    assert_eq!(udp.tx_queued, 0x10);
    assert_eq!(udp.rx_queued, 0x20);
    assert_eq!(udp.dropped, 5);
}

#[test]
fn meminfo_real_fixture() {
    let m = parse_meminfo(MEMINFO);
    assert_eq!(m.total_bytes, 16_342_752 * 1024);
}

/// The `cpu MHz` fallback in kHz, as the server derives it.
fn khz_fallback(mhz: &[String]) -> u64 {
    for t in mhz {
        let k = (t.trim().parse::<f64>().unwrap_or(0.0) * 1000.0) as u64;
        if k != 0 {
            return k;
        }
    }
    0
}

#[test]
fn cpuinfo_real_fixture() {
    let c = parse_cpuinfo(CPUINFO);
    assert_eq!(c.vendor_id, "GenuineIntel");
    assert_eq!(c.sockets, 1);
    assert_eq!(c.physical_cores, 8);
    assert_eq!(khz_fallback(&c.cpu_mhz), 3_494_400);
}

#[test]
fn diskstats_filters_devices() {
    let rows = parse_diskstats(DISKSTATS);
    assert!(rows.iter().any(|r| r.name == "sda"));
    assert!(rows.iter().any(|r| r.name == "sda1"));
    assert!(!rows.iter().any(|r| r.name == "sr0"));
    let sda = rows.iter().find(|r| r.name == "sda").unwrap();
    assert_eq!(sda.reads_completed, 880_123);
    assert_eq!(sda.weighted_io_time, 133_243_114);
}

#[test]
fn device_filter_edge_cases() {
    for ok in ["sda", "sdb2", "vda", "xvda1", "dm-0", "dm-12"] {
        assert!(diskstats_device_matches(ok), "{ok} should match");
    }
    for bad in ["sr0", "loop0", "nbd0", "sd", "dm-", "dm-x", "sda1x"] {
        assert!(!diskstats_device_matches(bad), "{bad} should not match");
    }
}

#[test]
fn mountinfo_real_fixture() {
    let rows = parse_mountinfo(MOUNTINFO);
    let root = rows.iter().find(|r| r.mountpoint == "/").unwrap();
    assert_eq!(root.fs_type, "btrfs");
    assert_eq!(root.source, "/dev/sda4");
    assert_eq!((root.major, root.minor), (0, 33));
}
