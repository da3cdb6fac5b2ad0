//! The metric records that the library produces, and their mathematical views.
use vstd::prelude::*;

verus! {

/// Library version info.
pub struct LibraryVersion {
    pub version: String,
    pub name: String,
}

/// System memory figures, in bytes.
#[derive(Clone, Copy, PartialEq, Eq, Structural, Debug)]
pub struct MemoryMetrics {
    pub total_bytes: u64,
    pub free_bytes: u64,
    pub used_bytes: u64,
    pub available_bytes: u64,
    pub swap_total_bytes: u64,
    pub swap_used_bytes: u64,
}

/// One mounted disk.
pub struct DiskMetrics {
    pub name: String,
    pub total_space: u64,
    pub available_space: u64,
    pub used_space: u64,
    pub mount_point: String,
    pub file_system: String,
}

/// The view of a [`DiskMetrics`].
pub struct DiskMetricsView {
    pub name: Seq<char>,
    pub total_space: u64,
    pub available_space: u64,
    pub used_space: u64,
    pub mount_point: Seq<char>,
    pub file_system: Seq<char>,
}

impl View for DiskMetrics {
    type V = DiskMetricsView;

    open spec fn view(&self) -> DiskMetricsView {
        DiskMetricsView {
            name: self.name@,
            total_space: self.total_space,
            available_space: self.available_space,
            used_space: self.used_space,
            mount_point: self.mount_point@,
            file_system: self.file_system@,
        }
    }
}

/// One network interface's traffic counters.
pub struct NetworkMetrics {
    pub interface: String,
    pub received_bytes: u64,
    pub transmitted_bytes: u64,
    pub packets_received: u64,
    pub packets_transmitted: u64,
}

/// The view of a [`NetworkMetrics`].
pub struct NetworkMetricsView {
    pub interface: Seq<char>,
    pub received_bytes: u64,
    pub transmitted_bytes: u64,
    pub packets_received: u64,
    pub packets_transmitted: u64,
}

impl View for NetworkMetrics {
    type V = NetworkMetricsView;

    open spec fn view(&self) -> NetworkMetricsView {
        NetworkMetricsView {
            interface: self.interface@,
            received_bytes: self.received_bytes,
            transmitted_bytes: self.transmitted_bytes,
            packets_received: self.packets_received,
            packets_transmitted: self.packets_transmitted,
        }
    }
}

/// Operating system identification.
pub struct OsInfo {
    pub name: String,
    pub kernel_version: String,
    pub os_version: String,
    pub host_name: String,
}

/// The view of an [`OsInfo`].
pub struct OsInfoView {
    pub name: Seq<char>,
    pub kernel_version: Seq<char>,
    pub os_version: Seq<char>,
    pub host_name: Seq<char>,
}

impl View for OsInfo {
    type V = OsInfoView;

    open spec fn view(&self) -> OsInfoView {
        OsInfoView {
            name: self.name@,
            kernel_version: self.kernel_version@,
            os_version: self.os_version@,
            host_name: self.host_name@,
        }
    }
}

/// Disk traffic summed over all processes.
#[derive(Clone, Copy, PartialEq, Eq, Structural, Debug)]
pub struct DiskIoMetrics {
    pub read_bytes: u64,
    pub written_bytes: u64,
}

/// Network traffic summed over all interfaces.
#[derive(Clone, Copy, PartialEq, Eq, Structural, Debug)]
pub struct NetworkIoMetrics {
    pub rx_bytes: u64,
    pub tx_bytes: u64,
    pub rx_packets: u64,
    pub tx_packets: u64,
}

/// One socket of the system's connection tables.
pub struct NetworkConnection {
    pub protocol: String,
    pub local_address: String,
    pub local_port: u16,
    pub remote_address: String,
    pub remote_port: u16,
    pub state: String,
    pub pid: Option<u32>,
    pub process_name: Option<String>,
}

/// The view of a [`NetworkConnection`].
pub struct ConnectionView {
    pub protocol: Seq<char>,
    pub local_address: Seq<char>,
    pub local_port: u16,
    pub remote_address: Seq<char>,
    pub remote_port: u16,
    pub state: Seq<char>,
    pub pid: Option<u32>,
    pub process_name: Option<Seq<char>>,
}

/// The view of an optional string.
pub open spec fn opt_view(s: Option<String>) -> Option<Seq<char>> {
    match s {
        Some(x) => Some(x@),
        None => None,
    }
}

impl View for NetworkConnection {
    type V = ConnectionView;

    open spec fn view(&self) -> ConnectionView {
        ConnectionView {
            protocol: self.protocol@,
            local_address: self.local_address@,
            local_port: self.local_port,
            remote_address: self.remote_address@,
            remote_port: self.remote_port,
            state: self.state@,
            pid: self.pid,
            process_name: opt_view(self.process_name),
        }
    }
}

/// The views of a sequence of connections.
pub open spec fn connection_views(v: Seq<NetworkConnection>) -> Seq<ConnectionView> {
    v.map_values(|c: NetworkConnection| c@)
}

/// Refresh flag: processor usage and frequency.
pub const REFRESH_CPU: u32 = 1;

/// Refresh flag: memory figures.
pub const REFRESH_MEMORY: u32 = 2;

/// Refresh flag: the disk list.
pub const REFRESH_DISKS: u32 = 4;

/// Refresh flag: network counters.
pub const REFRESH_NETWORKS: u32 = 8;

/// Refresh flag: the process list.
pub const REFRESH_PROCESSES: u32 = 16;

/// Refresh flag: temperature sensors.
pub const REFRESH_COMPONENTS: u32 = 32;

/// Refresh flag: everything.
pub const REFRESH_ALL: u32 = 0xFFFFFFFF;

} // verus!
