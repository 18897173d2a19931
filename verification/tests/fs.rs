use cadvisor::fs::{find_disk, supported_fs, usage_from_statvfs, FsService, FsUsage};
use cadvisor::parse::DiskStatsLine;

const MOUNTS: &str = "22 98 0:21 / /proc rw - proc proc rw\n\
98 1 0:33 /root / rw,relatime shared:1 - btrfs /dev/sda4 rw\n\
99 98 0:33 /home /home rw,relatime shared:2 - btrfs /dev/sda4 rw\n\
67 98 8:2 / /boot rw,relatime shared:58 - ext4 /dev/sda2 rw\n\
70 98 0:40 / /tmp rw - tmpfs tmpfs rw\n\
71 98 0:41 / /run rw - tmpfs tmpfs rw\n";

#[test]
fn partitions_from_mounts() {
    let fs = FsService::from_mountinfo(MOUNTS);
    let p = fs.partitions();
    let mps: Vec<&str> = p.iter().map(|x| x.mountpoint.as_str()).collect();
    assert_eq!(mps, vec!["/", "/boot", "/tmp", "/run"]);
    assert_eq!(p[0].device, "/dev/sda4");
    assert_eq!((p[0].major, p[0].minor), (0, 33));
    assert_eq!(p[2].device, "/tmp");
    assert!(supported_fs("xfs"));
    assert!(!supported_fs("proc"));
}

#[test]
fn partition_of_a_path() {
    let fs = FsService::from_mountinfo(MOUNTS);
    assert_eq!(fs.partition_for_path("/boot/efi").unwrap().mountpoint, "/boot");
    assert_eq!(fs.partition_for_path("/bootx").unwrap().mountpoint, "/");
    assert_eq!(fs.partition_for_path("/tmp").unwrap().mountpoint, "/tmp");
    assert!(fs.partition_for_path("relative").is_none());
}

#[test]
fn filesystems_of_the_machine() {
    let fs = FsService::from_mountinfo(MOUNTS);
    let u = usage_from_statvfs(100, 40, 30, 10, 5, 4096);
    assert_eq!(u.capacity, 409_600);
    assert_eq!(u.free, 163_840);
    assert_eq!(u.available, 122_880);
    let usages: Vec<Option<FsUsage>> = vec![Some(u), None, None, Some(u)];
    let infos = fs.machine_filesystems(&usages);
    assert_eq!(infos.len(), 2);
    assert_eq!(infos[0].device, "/dev/sda4");
    assert_eq!(infos[0].fs_type, "vfs");
    assert_eq!(infos[1].device, "/run");
    assert!(infos[1].has_inodes);
}

#[test]
fn disk_counters_last_line_wins() {
    let mk = |minor: u64, reads: u64| DiskStatsLine {
        major: 8,
        minor,
        name: "sda".to_string(),
        reads_completed: reads,
        reads_merged: 0,
        sectors_read: 0,
        read_time: 0,
        writes_completed: 0,
        writes_merged: 0,
        sectors_written: 0,
        write_time: 0,
        io_in_progress: 0,
        io_time: 0,
        weighted_io_time: 0,
    };
    let ds = vec![mk(0, 1), mk(1, 2), mk(0, 3)];
    assert_eq!(find_disk(&ds, 8, 0).unwrap().reads_completed, 3);
    assert_eq!(find_disk(&ds, 8, 1).unwrap().reads_completed, 2);
    assert!(find_disk(&ds, 9, 0).is_none());
}
