use cadvisor::machine::{
    cache_entry, disk_entry, disk_map_from, hugepages_from, machine_info_from, net_device, node_distances, node_ids,
    node_memory, parse_cache_size, parse_cpulist, pretty_name, sort_net_devices, version_info_from,
};
use cadvisor::model::{GoTime, HugePagesInfo};
use cadvisor::parse::{CpuInfoSummary, MemInfo};

#[test]
fn cpu_lists() {
    assert_eq!(parse_cpulist("0-3,8,10-11"), vec![0, 1, 2, 3, 8, 10, 11]);
    assert_eq!(parse_cpulist(""), Vec::<i64>::new());
    assert_eq!(parse_cpulist("5"), vec![5]);
    assert_eq!(node_distances("10,21"), vec![10, 21]);
}

#[test]
fn cache_sizes_and_entries() {
    assert_eq!(parse_cache_size("32K"), 32 * 1024);
    assert_eq!(parse_cache_size("24M\n"), 24 * 1024 * 1024);
    assert_eq!(parse_cache_size("512"), 512);
    assert_eq!(parse_cache_size("x"), 0);
    let c = cache_entry("index0", 1, Some("Data"), "48K", 0, "0,4").unwrap();
    assert_eq!(c.cache.level, 1);
    assert_eq!(c.cache.size, 48 * 1024);
    assert_eq!(c.cache.cache_type, "Data");
    assert_eq!(c.shared, vec![0, 4]);
    assert!(cache_entry("uevent", 1, Some("Data"), "48K", 0, "").is_none());
    assert!(cache_entry("index3", 3, Some("Trace"), "1M", 0, "").is_none());
    assert!(cache_entry("index3", 3, None, "1M", 0, "").is_none());
}

#[test]
fn block_devices() {
    let (key, d) = disk_entry("sda", Some("8:0"), 100, Some("mq-deadline [none] kyber")).unwrap();
    assert_eq!(key, "8:0");
    assert_eq!((d.major, d.minor, d.size), (8, 0, 51_200));
    assert_eq!(d.scheduler, "none");
    let (_, z) = disk_entry("zram0", Some("252:0"), 1, None).unwrap();
    assert_eq!(z.scheduler, "none");
    let (_, v) = disk_entry("vda", Some("253:0"), 1, Some("[mq-deadline] none")).unwrap();
    assert_eq!(v.scheduler, "mq-deadline");
    assert!(disk_entry("loop0", Some("7:0"), 1, None).is_none());
    assert!(disk_entry("sr0", Some("11:0"), 1, None).is_none());
    assert!(disk_entry("sdb", None, 1, None).is_none());
    assert!(disk_entry("sdb", Some("8"), 1, None).is_none());
    let e = |name: &str, dev: &str| disk_entry(name, Some(dev), 1, None).unwrap();
    let m = disk_map_from(vec![e("sdb", "8:16"), e("sda", "8:0"), e("vda", "253:0"), e("sdx", "8:0")]);
    let keys: Vec<&str> = m.iter().map(|(k, _)| k.as_str()).collect();
    assert_eq!(keys, vec!["253:0", "8:0", "8:16"]);
    assert_eq!(m[1].1.name, "sdx");
}

#[test]
fn network_devices() {
    assert!(net_device("lo", None, None, None).is_none());
    assert!(net_device("veth1234", None, None, None).is_none());
    assert!(net_device("docker0", None, None, None).is_none());
    let n = net_device("eth0", Some("aa:bb"), Some("1000"), Some("1500")).unwrap();
    assert_eq!((n.speed, n.mtu), (1000, 1500));
    assert_eq!(n.mac_address, "aa:bb");
    let w = net_device("wlan0", None, Some("-1"), Some("x")).unwrap();
    assert_eq!((w.speed, w.mtu), (-1, 0));
    assert_eq!(w.mac_address, "");
    let sorted = sort_net_devices(vec![w, n, net_device("br0", None, None, None).unwrap()]);
    let names: Vec<&str> = sorted.iter().map(|d| d.name.as_str()).collect();
    assert_eq!(names, vec!["br0", "eth0", "wlan0"]);
}

#[test]
fn nodes_and_memory() {
    let names: Vec<String> = ["node1", "possible", "node0", "node10", "nodex"].iter().map(|s| s.to_string()).collect();
    assert_eq!(node_ids(&names), vec![0, 1, 10]);
    assert_eq!(node_memory("Node 0 MemTotal:       16342752 kB\nNode 0 MemFree: 1 kB\n"), 16_342_752 * 1024);
    let pages = hugepages_from(&vec![("hugepages-2048kB".to_string(), 4), ("hugepages-1048576kB".to_string(), 0), ("other".to_string(), 9)]);
    assert_eq!(
        pages,
        vec![HugePagesInfo { page_size: 1_048_576, num_pages: 0 }, HugePagesInfo { page_size: 2048, num_pages: 4 }]
    );
}

#[test]
fn descriptions() {
    assert_eq!(pretty_name("NAME=Fedora\nPRETTY_NAME=\"Fedora Linux 43\"\n"), "Fedora Linux 43");
    assert_eq!(pretty_name("NAME=x\n"), "");
    let v = version_info_from(Some("6.1.0\n"), Some("PRETTY_NAME=Debian\n"), "0.1.0");
    assert_eq!(v.kernel_version, "6.1.0");
    assert_eq!(v.container_os_version, "Debian");
    assert_eq!(v.cadvisor_version, "0.1.0");
    let cpu = CpuInfoSummary { vendor_id: "GenuineIntel".to_string(), physical_cores: 4, sockets: 1, cpu_mhz: vec![] };
    let m = machine_info_from(
        GoTime::zero(),
        cpu,
        3_400_000,
        None,
        &MemInfo { total_bytes: 10, swap_bytes: 2 },
        vec![],
        8,
        vec![],
        ("id".to_string(), "uuid".to_string(), "boot".to_string()),
        vec![],
        vec![],
        vec![],
    );
    assert_eq!(m.cpu_frequency, 3_400_000);
    assert_eq!(m.num_cores, 8);
    assert_eq!(m.memory_capacity, 10);
    assert_eq!(m.cloud_provider, "Unknown");
    assert_eq!(m.instance_id, "None");
    assert_eq!(m.boot_id, "boot");
}
