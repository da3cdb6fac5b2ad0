//! The `sysinfo` calls the metric getters make, each behind a trusted item
//! whose contract says what `sysinfo` 0.32 returns.
//!
//! The readings themselves come from the machine, so no contract fixes their
//! values; what is stated is how a reading relates to the `sysinfo` object it
//! was read from, through names for the contents of those objects.
use sysinfo::{Component, Components, CpuRefreshKind, Disk, Disks, MemoryRefreshKind, NetworkData, Networks, ProcessesToUpdate, System};
use vstd::multiset::Multiset;
use vstd::prelude::*;

use crate::types::{NetworkMetrics, NetworkMetricsView};

verus! {

/// `sysinfo::System`: processors, memory and processes.
#[verifier::external_type_specification]
#[verifier::external_body]
pub struct ExSystem(System);

/// `sysinfo::Disks`: the list of mounted disks.
#[verifier::external_type_specification]
#[verifier::external_body]
pub struct ExDisks(Disks);

/// `sysinfo::Networks`: the table of network interfaces.
#[verifier::external_type_specification]
#[verifier::external_body]
pub struct ExNetworks(Networks);

/// `sysinfo::Components`: the list of temperature sensors.
#[verifier::external_type_specification]
#[verifier::external_body]
pub struct ExComponents(Components);

/// `sysinfo::Disk`: one entry of a disk list.
#[verifier::external_type_specification]
#[verifier::external_body]
pub struct ExDisk(Disk);

/// `sysinfo::NetworkData`: one interface's counters.
#[verifier::external_type_specification]
#[verifier::external_body]
pub struct ExNetworkData(NetworkData);

/// `sysinfo::Component`: one temperature sensor.
#[verifier::external_type_specification]
#[verifier::external_body]
pub struct ExComponent(Component);

/// What a disk entry reports, as plain values.
pub struct DiskSample {
    pub name: String,
    pub total_space: u64,
    pub available_space: u64,
    pub mount_point: String,
    pub file_system: String,
}

/// The view of a [`DiskSample`].
pub struct DiskSampleView {
    pub name: Seq<char>,
    pub total_space: u64,
    pub available_space: u64,
    pub mount_point: Seq<char>,
    pub file_system: Seq<char>,
}

impl View for DiskSample {
    type V = DiskSampleView;

    open spec fn view(&self) -> DiskSampleView {
        DiskSampleView {
            name: self.name@,
            total_space: self.total_space,
            available_space: self.available_space,
            mount_point: self.mount_point@,
            file_system: self.file_system@,
        }
    }
}

/// The four traffic counters of one interface.
pub struct NetCounters {
    pub received: u64,
    pub transmitted: u64,
    pub packets_received: u64,
    pub packets_transmitted: u64,
}

/// The counters a network metrics record carries.
pub open spec fn counters_of(m: NetworkMetricsView) -> NetCounters {
    NetCounters {
        received: m.received_bytes,
        transmitted: m.transmitted_bytes,
        packets_received: m.packets_received,
        packets_transmitted: m.packets_transmitted,
    }
}

/// `v` lists every interface of `table` once, each with its counters.
pub open spec fn enumerates(v: Seq<NetworkMetricsView>, table: Map<Seq<char>, NetCounters>) -> bool {
    &&& forall|i: int|
        0 <= i < v.len() ==> table.contains_key(#[trigger] v[i].interface) && table[v[i].interface]
            == counters_of(v[i])
    &&& forall|k: Seq<char>| #[trigger] table.contains_key(k) ==> exists|i: int| 0 <= i < v.len() && #[trigger] v[i].interface == k
    &&& forall|i: int, j: int| 0 <= i < j < v.len() ==> #[trigger] v[i].interface != #[trigger] v[j].interface
}

/// The disks a `Disks` value lists, in its order.
pub uninterp spec fn disk_list(d: Disks) -> Seq<DiskSampleView>;

/// The interfaces a `Networks` value holds, by name.
pub uninterp spec fn interface_table(n: Networks) -> Map<Seq<char>, NetCounters>;

/// The (read, written) byte counts since the last refresh of each process a
/// `System` value holds.
pub uninterp spec fn process_io(s: System) -> Multiset<(u64, u64)>;

/// The total RAM a `System` value holds, in bytes.
pub uninterp spec fn total_memory_of(s: System) -> u64;

/// The unused RAM a `System` value holds, in bytes.
pub uninterp spec fn free_memory_of(s: System) -> u64;

/// The RAM in use a `System` value holds, in bytes.
pub uninterp spec fn used_memory_of(s: System) -> u64;

/// The available RAM a `System` value holds, in bytes.
pub uninterp spec fn available_memory_of(s: System) -> u64;

/// The total swap a `System` value holds, in bytes.
pub uninterp spec fn total_swap_of(s: System) -> u64;

/// The swap in use a `System` value holds, in bytes.
pub uninterp spec fn used_swap_of(s: System) -> u64;

/// The unused swap a `System` value holds, in bytes.
pub uninterp spec fn free_swap_of(s: System) -> u64;

/// The brand and frequency (MHz) of each processor a `System` value holds,
/// in its order. (Each processor's usage, a floating-point figure, is not
/// part of it.)
pub uninterp spec fn cpu_figures(s: System) -> Seq<(Seq<char>, u64)>;

/// The labels of the sensors a `Components` value lists, in its order.
pub uninterp spec fn component_labels(c: Components) -> Seq<Seq<char>>;

/// `System::new`: an empty system, nothing read yet.
#[verifier::external_body]
pub(crate) fn new_system() -> (s: System) {
    System::new()
}

/// `Disks::new_with_refreshed_list`: the disks mounted now.
#[verifier::external_body]
pub(crate) fn new_disks() -> (d: Disks) {
    Disks::new_with_refreshed_list()
}

/// `Networks::new_with_refreshed_list`: the interfaces present now.
#[verifier::external_body]
pub(crate) fn new_networks() -> (n: Networks) {
    Networks::new_with_refreshed_list()
}

/// `Components::new_with_refreshed_list`: the sensors present now.
#[verifier::external_body]
pub(crate) fn new_components() -> (c: Components) {
    Components::new_with_refreshed_list()
}

/// The memory figures of two system values are the same.
pub open spec fn same_memory(a: System, b: System) -> bool {
    &&& total_memory_of(a) == total_memory_of(b)
    &&& free_memory_of(a) == free_memory_of(b)
    &&& used_memory_of(a) == used_memory_of(b)
    &&& available_memory_of(a) == available_memory_of(b)
    &&& total_swap_of(a) == total_swap_of(b)
    &&& used_swap_of(a) == used_swap_of(b)
    &&& free_swap_of(a) == free_swap_of(b)
}

/// `System::refresh_cpu_specifics` with usage and frequency: re-reads the
/// processors only. The memory figures and the process table are left as
/// they were; what it reads into the processor data is the machine's.
#[verifier::external_body]
pub(crate) fn refresh_cpu(s: &mut System)
    ensures
        same_memory(*final(s), *old(s)),
        process_io(*final(s)) == process_io(*old(s)),
{
    s.refresh_cpu_specifics(CpuRefreshKind::new().with_cpu_usage().with_frequency());
}

/// `System::refresh_memory_specifics` with RAM: re-reads the memory figures
/// (the machine's) and leaves the process table and the processors as they
/// were.
#[verifier::external_body]
pub(crate) fn refresh_memory(s: &mut System)
    ensures
        process_io(*final(s)) == process_io(*old(s)),
        cpu_figures(*final(s)) == cpu_figures(*old(s)),
{
    s.refresh_memory_specifics(MemoryRefreshKind::new().with_ram());
}

/// `System::refresh_processes` over all processes, dropping dead ones. The
/// process table it reads is the machine's; the memory figures are left as
/// they were.
#[verifier::external_body]
pub(crate) fn refresh_all_processes(s: &mut System)
    ensures
        same_memory(*final(s), *old(s)),
{
    s.refresh_processes(ProcessesToUpdate::All, true);
}

/// `System::refresh_processes` over the one process `pid`, keeping dead ones.
#[verifier::external_body]
pub(crate) fn refresh_one_process(s: &mut System, pid: u32) {
    let p = sysinfo::Pid::from(pid as usize);
    s.refresh_processes(ProcessesToUpdate::Some(&[p]), false);
}

/// `Disks::refresh_list`: empties the list and reads the mounted disks anew.
#[verifier::external_body]
pub(crate) fn refresh_disk_list(d: &mut Disks) {
    d.refresh_list();
}

/// `Networks::refresh`: re-reads the counters of the known interfaces. It
/// neither adds nor removes an interface (that is `refresh_list`'s work), so
/// the set of interface names stays as it was. The counters it reads are the
/// machine's and are not stated.
#[verifier::external_body]
pub(crate) fn refresh_networks(n: &mut Networks)
    ensures
        interface_table(*final(n)).dom() == interface_table(*old(n)).dom(),
{
    n.refresh();
}

/// `Components::refresh_list`: reads the sensor list anew.
#[verifier::external_body]
pub(crate) fn refresh_component_list(c: &mut Components) {
    c.refresh_list();
}

/// `Components::refresh`: re-reads the known sensors.
#[verifier::external_body]
pub(crate) fn refresh_components(c: &mut Components) {
    c.refresh();
}

/// `System::total_memory`: the total RAM, in bytes that `s` holds from its last refresh.
#[verifier::external_body]
pub(crate) fn total_memory(s: &System) -> (v: u64)
    ensures
        v == total_memory_of(*s),
{
    s.total_memory()
}

/// `System::free_memory`: the unused RAM, in bytes that `s` holds from its last refresh.
#[verifier::external_body]
pub(crate) fn free_memory(s: &System) -> (v: u64)
    ensures
        v == free_memory_of(*s),
{
    s.free_memory()
}

/// `System::used_memory`: the RAM in use, in bytes that `s` holds from its
/// last refresh. On Linux and Windows sysinfo computes it as total less
/// available memory without a check, which fails where the available figure
/// exceeds the total; such values are left out. (On macOS it is a figure of
/// its own, so the result is not stated as that difference.)
#[verifier::external_body]
pub(crate) fn used_memory(s: &System) -> (v: u64)
    requires
        available_memory_of(*s) <= total_memory_of(*s),
    ensures
        v == used_memory_of(*s),
{
    s.used_memory()
}

/// `System::available_memory`: the RAM available for new work, in bytes that `s` holds from its last refresh.
#[verifier::external_body]
pub(crate) fn available_memory(s: &System) -> (v: u64)
    ensures
        v == available_memory_of(*s),
{
    s.available_memory()
}

/// `System::total_swap`: the total swap, in bytes that `s` holds from its last refresh.
#[verifier::external_body]
pub(crate) fn total_swap(s: &System) -> (v: u64)
    ensures
        v == total_swap_of(*s),
{
    s.total_swap()
}

/// `System::free_swap`: the unused swap, in bytes that `s` holds from its
/// last refresh. On Windows sysinfo computes it as total less used swap, both
/// taken from one reading of the system's commit figures (used from the
/// commit charge, total from the commit limit, which the charge does not
/// exceed); no input is left out for that case.
#[verifier::external_body]
pub(crate) fn free_swap(s: &System) -> (v: u64)
    ensures
        v == free_swap_of(*s),
{
    s.free_swap()
}

/// `System::used_swap`: the swap in use, in bytes that `s` holds from its
/// last refresh. On Linux and macOS sysinfo computes it as total less free
/// swap without a check, which fails where the free figure exceeds the
/// total; such values are left out.
#[verifier::external_body]
pub(crate) fn used_swap(s: &System) -> (v: u64)
    requires
        free_swap_of(*s) <= total_swap_of(*s),
    ensures
        v == used_swap_of(*s),
{
    s.used_swap()
}

/// `Disks::list`: each disk's name, total and available space, mount point
/// and file system (names and paths converted lossily to text), in list
/// order.
#[verifier::external_body]
pub(crate) fn disk_samples(d: &Disks) -> (v: Vec<DiskSample>)
    ensures
        v@.map_values(|x: DiskSample| x@) == disk_list(*d),
{
    d.list().iter().map(|disk| DiskSample {
        name: disk.name().to_string_lossy().into_owned(),
        total_space: disk.total_space(),
        available_space: disk.available_space(),
        mount_point: disk.mount_point().to_string_lossy().into_owned(),
        file_system: disk.file_system().to_string_lossy().into_owned(),
    }).collect()
}

/// `Networks::list`: a walk over the interface map, each interface once with
/// `received`, `transmitted`, `packets_received` and `packets_transmitted`.
/// The walk's order is the hash map's and is not stated.
#[verifier::external_body]
pub(crate) fn network_samples(n: &Networks) -> (v: Vec<NetworkMetrics>)
    ensures
        enumerates(v@.map_values(|x: NetworkMetrics| x@), interface_table(*n)),
{
    n.list().iter().map(|(name, data)| NetworkMetrics {
        interface: name.clone(),
        received_bytes: data.received(),
        transmitted_bytes: data.transmitted(),
        packets_received: data.packets_received(),
        packets_transmitted: data.packets_transmitted(),
    }).collect()
}

/// `System::processes`: each process's `disk_usage()` read and written bytes,
/// in the process map's order, which is not stated.
#[verifier::external_body]
pub(crate) fn process_io_samples(s: &System) -> (v: Vec<(u64, u64)>)
    ensures
        v@.to_multiset() == process_io(*s),
{
    s.processes().values().map(|p| (p.disk_usage().read_bytes, p.disk_usage().written_bytes)).collect()
}

/// `Component::label` of each sensor, in list order.
#[verifier::external_body]
pub(crate) fn sensor_labels(c: &Components) -> (v: Vec<String>)
    ensures
        v@.map_values(|l: String| l@) == component_labels(*c),
{
    c.list().iter().map(|x| x.label().to_string()).collect()
}

/// `System::uptime`: seconds since boot, read from the machine.
#[verifier::external_body]
pub(crate) fn uptime_seconds() -> u64 {
    System::uptime()
}

/// `System::name`: the operating system's name, where the machine tells it.
#[verifier::external_body]
pub(crate) fn os_name() -> Option<String> {
    System::name()
}

/// `System::kernel_version`, where the machine tells it.
#[verifier::external_body]
pub(crate) fn kernel_version() -> Option<String> {
    System::kernel_version()
}

/// `System::os_version`, where the machine tells it.
#[verifier::external_body]
pub(crate) fn os_version() -> Option<String> {
    System::os_version()
}

/// `System::host_name`, where the machine tells it.
#[verifier::external_body]
pub(crate) fn host_name() -> Option<String> {
    System::host_name()
}

} // verus!
