use metrics::metrics::{
    cleanup_metrics, core_sensors, disk_io_totals, disk_metrics, disk_metrics_list,
    get_cpu_core_temperatures, get_disk_io, get_disks, get_memory, get_network_io, get_networks,
    get_os_info, get_uptime, network_totals, os_info_of, prepare_cpus, refresh_metrics, select_core_sensors,
    MetricsState,
};
use metrics::refresh::refresh_plan;
use metrics::sys_api::DiskSample;
use metrics::types::{NetworkMetrics, REFRESH_ALL, REFRESH_CPU, REFRESH_DISKS, REFRESH_NETWORKS};

fn sample(name: &str, total: u64, available: u64) -> DiskSample {
    DiskSample {
        name: name.to_string(),
        total_space: total,
        available_space: available,
        mount_point: "/".to_string(),
        file_system: "ext4".to_string(),
    }
}

fn net(name: &str, rx: u64, tx: u64, rp: u64, tp: u64) -> NetworkMetrics {
    NetworkMetrics {
        interface: name.to_string(),
        received_bytes: rx,
        transmitted_bytes: tx,
        packets_received: rp,
        packets_transmitted: tp,
    }
}

#[test]
fn test_cpu_core_temperatures() {
    let mut state = MetricsState::new();
    let temps = get_cpu_core_temperatures(&mut state);
    println!("Found {} temperature sensors", temps.len());
    let components = state.components.as_ref().unwrap();
    for index in &temps {
        let c = &components.list()[*index];
        println!(
            "Core {}: {}°C (Max: {:?}°C, Critical: {:?}°C)",
            index,
            c.temperature(),
            Some(c.max()),
            c.critical()
        );
    }
}

#[test]
fn refresh_flags_decode() {
    let all = refresh_plan(REFRESH_ALL);
    assert!(all.cpu && all.memory && all.disks && all.networks && all.processes && all.components);
    let cpu = refresh_plan(REFRESH_CPU);
    assert!(cpu.cpu && !cpu.memory && !cpu.disks && !cpu.networks && !cpu.processes && !cpu.components);
    let two = refresh_plan(REFRESH_DISKS | REFRESH_NETWORKS);
    assert!(two.disks && two.networks && !two.cpu && !two.memory);
    let none = refresh_plan(64);
    assert!(!none.cpu && !none.components);
}

#[test]
fn refresh_creates_no_cache() {
    let mut state = MetricsState::new();
    refresh_metrics(&mut state, REFRESH_ALL);
    assert!(state.system.is_none());
    assert!(state.disks.is_none());
    assert!(state.networks.is_none());
    assert!(state.components.is_none());
    let _ = get_memory(&mut state);
    refresh_metrics(&mut state, REFRESH_ALL);
    assert!(state.system.is_some());
    assert!(state.disks.is_none());
}

#[test]
fn used_space_is_total_less_available() {
    let m = disk_metrics(sample("/dev/sda1", 512, 200));
    assert_eq!(m.used_space, 312);
    assert_eq!(m.name, "/dev/sda1");
    assert_eq!(m.file_system, "ext4");
    let list = disk_metrics_list(vec![sample("a", 10, 4), sample("b", 7, 7)]).unwrap();
    assert_eq!(list.len(), 2);
    assert_eq!(list[0].name, "a");
    assert_eq!(list[0].used_space, 6);
    assert_eq!(list[1].used_space, 0);
    assert!(disk_metrics_list(vec![sample("a", 10, 4), sample("b", 7, 8)]).is_none());
}

#[test]
fn network_totals_sum_interfaces() {
    let t = network_totals(&vec![net("eth0", 100, 50, 10, 5), net("lo", 7, 7, 1, 1)]).unwrap();
    assert_eq!((t.rx_bytes, t.tx_bytes, t.rx_packets, t.tx_packets), (107, 57, 11, 6));
    let empty = network_totals(&vec![]).unwrap();
    assert_eq!(empty.rx_bytes, 0);
    assert!(network_totals(&vec![net("a", u64::MAX, 0, 0, 0), net("b", 1, 0, 0, 0)]).is_none());
}

#[test]
fn disk_io_totals_sum_processes() {
    let t = disk_io_totals(&vec![(10, 1), (20, 2), (0, 0)]).unwrap();
    assert_eq!((t.read_bytes, t.written_bytes), (30, 3));
    assert!(disk_io_totals(&vec![(1, u64::MAX), (0, 1)]).is_none());
}

#[test]
fn core_sensor_selection() {
    let labels = vec!["acpitz temp1".to_string(), "Core 0".to_string(), "PACKAGE id 0".to_string()];
    assert_eq!(core_sensors(&labels), vec![1, 2]);
    let none = vec!["nvme Composite".to_string(), "acpitz".to_string()];
    assert_eq!(core_sensors(&none), vec![0, 1]);
    assert_eq!(core_sensors(&Vec::new()), Vec::<usize>::new());
    let lowered = vec!["k10temp tctl".to_string(), "amdgpu edge".to_string(), "cpu fan".to_string()];
    assert_eq!(select_core_sensors(&lowered), vec![2]);
}

#[test]
fn os_info_is_cached() {
    let mut state = MetricsState::new();
    let first = get_os_info(&mut state);
    assert!(state.os_info.is_some());
    let second = get_os_info(&mut state);
    assert_eq!(first.name, second.name);
    assert_eq!(first.kernel_version, second.kernel_version);
    assert_eq!(first.host_name, second.host_name);
}

#[test]
fn live_readings() {
    let mut state = MetricsState::new();
    let m = get_memory(&mut state).unwrap();
    assert!(m.total_bytes > 0);
    assert_eq!(m.used_bytes, m.total_bytes - m.available_bytes);
    let disks = get_disks(&mut state);
    if let Some(list) = disks {
        for d in &list {
            assert_eq!(d.used_space + d.available_space, d.total_space);
        }
    }
    let nets = get_networks(&mut state);
    let mut names: Vec<&String> = nets.iter().map(|n| &n.interface).collect();
    names.sort();
    names.dedup();
    assert_eq!(names.len(), nets.len());
    let _ = get_network_io(&mut state);
    let _ = get_disk_io(&mut state);
    let _ = get_uptime();
    cleanup_metrics(&mut state);
    assert!(get_memory(&mut state).unwrap().total_bytes > 0);
}

#[test]
fn test_os_info() {
    let mut state = MetricsState::new();
    let os = get_os_info(&mut state);
    assert!(!os.name.is_empty());
    println!("OS Name: {}", os.name);
    println!("Kernel: {}", os.kernel_version);
}

#[test]
fn test_disk_io() {
    let mut state = MetricsState::new();
    if let Some(io) = get_disk_io(&mut state) {
        println!(
            "Global Disk I/O - Read: {} bytes, Written: {} bytes",
            io.read_bytes, io.written_bytes
        );
    }
}

#[test]
fn test_network_io() {
    let mut state = MetricsState::new();
    let io = get_network_io(&mut state);
    let interfaces = get_networks(&mut state);
    println!("Found {} interfaces", interfaces.len());
    if let Some(io) = io {
        println!(
            "Global Network I/O - RX: {} bytes, TX: {} bytes",
            io.rx_bytes, io.tx_bytes
        );
    }
}

#[test]
fn test_refresh_metrics() {
    let mut state = MetricsState::new();
    refresh_metrics(&mut state, REFRESH_CPU);
    prepare_cpus(&mut state);
    let cpus = state.system.as_ref().unwrap().cpus().len();
    assert!(cpus > 0);
    println!("CPU refresh test passed with {} cores", cpus);
}

#[test]
fn cleanup_drops_every_cache() {
    let mut state = MetricsState::new();
    let _ = get_memory(&mut state);
    let _ = get_networks(&mut state);
    let _ = get_os_info(&mut state);
    let _ = get_cpu_core_temperatures(&mut state);
    cleanup_metrics(&mut state);
    assert!(state.system.is_none());
    assert!(state.disks.is_none());
    assert!(state.networks.is_none());
    assert!(state.components.is_none());
    assert!(state.os_info.is_none());
    let _ = get_networks(&mut state);
    assert!(state.networks.is_some());
}

#[test]
fn os_info_answers_or_empty() {
    let os = os_info_of(Some("Ubuntu".to_string()), None, Some("24.04 LTS".to_string()), None);
    assert_eq!(os.name, "Ubuntu");
    assert_eq!(os.kernel_version, "");
    assert_eq!(os.os_version, "24.04 LTS");
    assert_eq!(os.host_name, "");
}

#[test]
fn processor_and_process_refresh_keep_memory_figures() {
    let mut state = MetricsState::new();
    let _ = get_memory(&mut state);
    let figures = |s: &MetricsState| {
        let sys = s.system.as_ref().unwrap();
        (sys.total_memory(), sys.free_memory(), sys.available_memory(), sys.used_swap())
    };
    let before = figures(&state);
    refresh_metrics(&mut state, REFRESH_CPU | 16 | 64);
    assert_eq!(figures(&state), before);
}

#[test]
fn memory_refresh_keeps_processor_figures() {
    let mut state = MetricsState::new();
    prepare_cpus(&mut state);
    let figures = |s: &MetricsState| {
        s.system
            .as_ref()
            .unwrap()
            .cpus()
            .iter()
            .map(|c| (c.brand().to_string(), c.frequency()))
            .collect::<Vec<_>>()
    };
    let before = figures(&state);
    refresh_metrics(&mut state, 2);
    assert_eq!(figures(&state), before);
}
