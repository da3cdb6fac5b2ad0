//! The metric getters over the library's `sysinfo` caches: lazily created
//! caches, selective refreshes, and the records read from them.
use sysinfo::{Components, Disks, Networks, System};
use vstd::multiset::Multiset;
use vstd::prelude::*;
use vstd::seq_lib::{commutative_foldl, lemma_fold_left_permutation};

use crate::refresh::{lemma_unknown_bits_ignored, plan_of, refresh_plan, RefreshPlan};
use crate::sys_api::{
    available_memory, available_memory_of, component_labels, disk_list, disk_samples, enumerates,
    free_memory, free_memory_of, host_name, interface_table, kernel_version, network_samples,
    new_components, new_disks, new_networks, new_system, os_name, os_version, process_io,
    process_io_samples, refresh_all_processes, refresh_component_list, refresh_components,
    refresh_cpu, refresh_disk_list, refresh_memory, refresh_networks, refresh_one_process,
    sensor_labels, total_memory, total_memory_of, total_swap, total_swap_of, uptime_seconds,
    used_memory, used_memory_of, used_swap, used_swap_of, free_swap, free_swap_of, cpu_figures, DiskSample, DiskSampleView, NetCounters,
};
use crate::text::{chars_of, contains, contains_seq, lowercase, to_lowercase};
use crate::types::{
    opt_view,
    DiskIoMetrics, DiskMetrics, DiskMetricsView, MemoryMetrics, NetworkIoMetrics, NetworkMetrics,
    NetworkMetricsView, OsInfo,
};

verus! {

/// The library's caches: each `sysinfo` object is created on first use and
/// then kept, and the operating system's identity is read once.
pub struct MetricsState {
    pub system: Option<System>,
    pub disks: Option<Disks>,
    pub networks: Option<Networks>,
    pub components: Option<Components>,
    pub os_info: Option<OsInfo>,
}

impl MetricsState {
    /// Caches that hold nothing yet.
    pub fn new() -> (s: Self)
        ensures
            s.system is None,
            s.disks is None,
            s.networks is None,
            s.components is None,
            s.os_info is None,
    {
        MetricsState { system: None, disks: None, networks: None, components: None, os_info: None }
    }
}

/// Creates the system cache if it does not exist yet.
fn ensure_system(state: &mut MetricsState)
    ensures
        final(state).system is Some,
        old(state).system is Some ==> final(state).system == old(state).system,
        final(state).disks == old(state).disks,
        final(state).networks == old(state).networks,
        final(state).components == old(state).components,
        final(state).os_info == old(state).os_info,
{
    if state.system.is_none() {
        state.system = Some(new_system());
    }
}

/// What a refresh following `plan` leaves of the caches `before`: no cache is
/// created or dropped, the operating system's identity is kept, a cache the
/// plan does not name is left as it was, refreshing the network counters
/// keeps the set of interfaces, and in the system cache the memory figures
/// change only on a memory refresh, the process table only on a process
/// refresh, and the processors' brands and frequencies only on a processor
/// or process refresh. What is read into a refreshed cache is the machine's.
pub open spec fn refreshed(plan: RefreshPlan, before: MetricsState, after: MetricsState) -> bool {
    &&& after.system is Some == before.system is Some
    &&& after.disks is Some == before.disks is Some
    &&& after.networks is Some == before.networks is Some
    &&& after.components is Some == before.components is Some
    &&& after.os_info == before.os_info
    &&& !(plan.cpu || plan.memory || plan.processes) ==> after.system == before.system
    &&& !plan.disks ==> after.disks == before.disks
    &&& !plan.networks ==> after.networks == before.networks
    &&& !plan.components ==> after.components == before.components
    &&& (before.networks matches Some(n) ==> interface_table(after.networks->0).dom()
        == interface_table(n).dom())
    &&& (before.system matches Some(s) ==> {
        &&& !plan.memory ==> memory_of(after.system->0) == memory_of(s)
        &&& !plan.processes ==> process_io(after.system->0) == process_io(s)
        &&& !(plan.cpu || plan.processes) ==> cpu_figures(after.system->0) == cpu_figures(s)
    })
}

/// Brings the caches that `flags` names up to date, among those that exist:
/// processor figures (bit 1), memory (2), the disk list (4), network counters
/// (8), the process list (16) and the sensors (32); other bits are ignored.
/// No cache is created.
pub fn refresh_metrics(state: &mut MetricsState, flags: u32)
    ensures
        refreshed(plan_of(flags), *old(state), *final(state)),
{
    let plan = refresh_plan(flags);
    if plan.cpu {
        match &mut state.system {
            Some(s) => refresh_cpu(s),
            None => {},
        }
    }
    if plan.memory {
        match &mut state.system {
            Some(s) => refresh_memory(s),
            None => {},
        }
    }
    if plan.disks {
        match &mut state.disks {
            Some(d) => refresh_disk_list(d),
            None => {},
        }
    }
    if plan.networks {
        match &mut state.networks {
            Some(n) => refresh_networks(n),
            None => {},
        }
    }
    if plan.processes {
        match &mut state.system {
            Some(s) => refresh_all_processes(s),
            None => {},
        }
    }
    if plan.components {
        match &mut state.components {
            Some(c) => {
                refresh_component_list(c);
                refresh_components(c);
            },
            None => {},
        }
    }
}

/// The memory figures a system value holds.
pub open spec fn memory_of(s: System) -> MemoryMetrics {
    MemoryMetrics {
        total_bytes: total_memory_of(s),
        free_bytes: free_memory_of(s),
        used_bytes: used_memory_of(s),
        available_bytes: available_memory_of(s),
        swap_total_bytes: total_swap_of(s),
        swap_used_bytes: used_swap_of(s),
    }
}

/// Each memory figure reported for a system is that system's own figure of
/// the same kind: total, free, used and available RAM, total and used swap.
pub proof fn lemma_memory_figures(s: System)
    ensures
        memory_of(s).total_bytes == total_memory_of(s),
        memory_of(s).free_bytes == free_memory_of(s),
        memory_of(s).used_bytes == used_memory_of(s),
        memory_of(s).available_bytes == available_memory_of(s),
        memory_of(s).swap_total_bytes == total_swap_of(s),
        memory_of(s).swap_used_bytes == used_swap_of(s),
{
}

/// The memory figures of a system value can be read: it reports no more
/// available memory than total memory, and no more free swap than total
/// swap (the used figures are the differences).
pub open spec fn memory_readable(s: System) -> bool {
    available_memory_of(s) <= total_memory_of(s) && free_swap_of(s) <= total_swap_of(s)
}

/// Refreshes the RAM figures and reports memory and swap; `None` where the
/// system reports more available memory, or more free swap, than there is in
/// total, for which the used figure would be negative.
pub fn get_memory(state: &mut MetricsState) -> (r: Option<MemoryMetrics>)
    ensures
        final(state).system is Some,
        r is Some <==> memory_readable(final(state).system->0),
        r matches Some(m) ==> m == memory_of(final(state).system->0),
        r matches Some(m) ==> {
            let s = final(state).system->0;
            &&& m.total_bytes == total_memory_of(s)
            &&& m.free_bytes == free_memory_of(s)
            &&& m.used_bytes == used_memory_of(s)
            &&& m.available_bytes == available_memory_of(s)
            &&& m.swap_total_bytes == total_swap_of(s)
            &&& m.swap_used_bytes == used_swap_of(s)
        },
        final(state).disks == old(state).disks,
        final(state).networks == old(state).networks,
        final(state).components == old(state).components,
        final(state).os_info == old(state).os_info,
{
    ensure_system(state);
    match &mut state.system {
        Some(s) => refresh_memory(s),
        None => {},
    }
    match &state.system {
        Some(s) => {
            let total = total_memory(s);
            let available = available_memory(s);
            let swap_total = total_swap(s);
            let swap_free = free_swap(s);
            if available > total || swap_free > swap_total {
                return None;
            }
            Some(
                MemoryMetrics {
                    total_bytes: total,
                    free_bytes: free_memory(s),
                    used_bytes: used_memory(s),
                    available_bytes: available,
                    swap_total_bytes: swap_total,
                    swap_used_bytes: used_swap(s),
                },
            )
        },
        None => {
            proof {
                assert(false);
            }
            None
        },
    }
}

/// The views of a sequence of disk samples.
pub open spec fn sample_views(v: Seq<DiskSample>) -> Seq<DiskSampleView> {
    v.map_values(|x: DiskSample| x@)
}

/// The views of a sequence of strings.
pub open spec fn string_views(v: Seq<String>) -> Seq<Seq<char>> {
    v.map_values(|l: String| l@)
}

/// The lower-cased views of a sequence of strings.
pub open spec fn lowered_views(v: Seq<String>) -> Seq<Seq<char>> {
    v.map_values(|l: String| lowercase(l@))
}

/// The record of one disk: used space is total less available space.
pub open spec fn disk_metrics_of(d: DiskSampleView) -> DiskMetricsView {
    DiskMetricsView {
        name: d.name,
        total_space: d.total_space,
        available_space: d.available_space,
        used_space: (d.total_space - d.available_space) as u64,
        mount_point: d.mount_point,
        file_system: d.file_system,
    }
}

/// No disk of the list reports more available than total space.
pub open spec fn disks_consistent(l: Seq<DiskSampleView>) -> bool {
    forall|i: int| 0 <= i < l.len() ==> #[trigger] l[i].available_space <= l[i].total_space
}

/// The record of one disk.
pub fn disk_metrics(d: DiskSample) -> (m: DiskMetrics)
    requires
        d.available_space <= d.total_space,
    ensures
        m@ == disk_metrics_of(d@),
{
    DiskMetrics {
        name: d.name,
        total_space: d.total_space,
        available_space: d.available_space,
        used_space: d.total_space - d.available_space,
        mount_point: d.mount_point,
        file_system: d.file_system,
    }
}

/// The records of a disk list, or `None` where a disk reports more available
/// than total space (the used space would be negative).
pub fn disk_metrics_list(samples: Vec<DiskSample>) -> (r: Option<Vec<DiskMetrics>>)
    ensures
        match r {
            Some(v) => disks_consistent(sample_views(samples@))
                && v@.map_values(|x: DiskMetrics| x@) == sample_views(samples@).map_values(
                |d: DiskSampleView| disk_metrics_of(d),
            ),
            None => !disks_consistent(sample_views(samples@)),
        },
{
    let ghost sv = sample_views(samples@);
    let mut out: Vec<DiskMetrics> = Vec::new();
    let mut rest = samples;
    let mut k: usize = 0;
    let n = rest.len();
    let ghost orig = rest@;
    // Taken from the back, then reversed: each sample is moved, not copied.
    while k < n
        invariant
            n == orig.len(),
            orig == samples@,
            sv == sample_views(orig),
            k <= n,
            rest@ == orig.take(n - k),
            out.len() == k,
            forall|i: int| 0 <= i < k ==> #[trigger] out@[i]@ == disk_metrics_of(sv[n - 1 - i]),
            forall|i: int| n - k <= i < n ==> #[trigger] sv[i].available_space <= sv[i].total_space,
        decreases n - k,
    {
        let d = rest.pop().unwrap();
        proof {
            assert(d == orig[n - 1 - k]);
            assert(rest@ =~= orig.take(n - k - 1));
        }
        if d.available_space > d.total_space {
            proof {
                assert(sv[n - 1 - k].available_space > sv[n - 1 - k].total_space);
            }
            return None;
        }
        out.push(disk_metrics(d));
        k = k + 1;
    }
    let mut res: Vec<DiskMetrics> = Vec::new();
    let mut j: usize = 0;
    while j < n
        invariant
            n == orig.len(),
            sv == sample_views(orig),
            out.len() == n - j,
            j <= n,
            forall|i: int| 0 <= i < n - j ==> #[trigger] out@[i]@ == disk_metrics_of(sv[n - 1 - i]),
            res.len() == j,
            forall|i: int| 0 <= i < j ==> #[trigger] res@[i]@ == disk_metrics_of(sv[i]),
        decreases n - j,
    {
        let m = out.pop().unwrap();
        proof {
            assert(m@ == disk_metrics_of(sv[n - 1 - (n - j - 1)]));
        }
        res.push(m);
        j = j + 1;
    }
    proof {
        assert(res@.map_values(|x: DiskMetrics| x@) =~= sv.map_values(
            |d: DiskSampleView| disk_metrics_of(d),
        ));
        assert forall|i: int| 0 <= i < sv.len() implies #[trigger] sv[i].available_space
            <= sv[i].total_space by {
            assert(n - n <= i);
        }
    }
    Some(res)
}

/// Creates the disk cache if it does not exist yet.
fn ensure_disks(state: &mut MetricsState)
    ensures
        final(state).disks is Some,
        old(state).disks is Some ==> final(state).disks == old(state).disks,
        final(state).system == old(state).system,
        final(state).networks == old(state).networks,
        final(state).components == old(state).components,
        final(state).os_info == old(state).os_info,
{
    if state.disks.is_none() {
        state.disks = Some(new_disks());
    }
}

/// Reads the disk list anew and reports each disk, in list order. `None`
/// where a disk reports more available than total space, for which the used
/// space would be negative.
pub fn get_disks(state: &mut MetricsState) -> (r: Option<Vec<DiskMetrics>>)
    ensures
        final(state).disks is Some,
        match r {
            Some(v) => disks_consistent(disk_list(final(state).disks->0)) && v@.map_values(
                |x: DiskMetrics| x@,
            ) == disk_list(final(state).disks->0).map_values(|d: DiskSampleView| disk_metrics_of(d)),
            None => !disks_consistent(disk_list(final(state).disks->0)),
        },
        final(state).system == old(state).system,
        final(state).networks == old(state).networks,
        final(state).components == old(state).components,
        final(state).os_info == old(state).os_info,
{
    ensure_disks(state);
    match &mut state.disks {
        Some(d) => refresh_disk_list(d),
        None => {},
    }
    let samples = match &state.disks {
        Some(d) => disk_samples(d),
        None => {
            proof {
                assert(false);
            }
            Vec::new()
        },
    };
    disk_metrics_list(samples)
}

/// The sum of `f` over `v`.
pub open spec fn sum_by<A>(v: Seq<A>, f: spec_fn(A) -> u64) -> nat
    decreases v.len(),
{
    if v.len() == 0 {
        0
    } else {
        sum_by(v.drop_last(), f) + f(v.last()) as nat
    }
}

proof fn lemma_sum_by_mono<A>(v: Seq<A>, k: int, f: spec_fn(A) -> u64)
    requires
        0 <= k <= v.len(),
    ensures
        sum_by(v.take(k), f) <= sum_by(v, f),
    decreases v.len() - k,
{
    if k < v.len() {
        lemma_sum_by_mono(v, k + 1, f);
        assert(v.take(k + 1).drop_last() =~= v.take(k));
    } else {
        assert(v.take(k) =~= v);
    }
}

proof fn lemma_sum_by_step<A>(v: Seq<A>, k: int, f: spec_fn(A) -> u64)
    requires
        0 <= k < v.len(),
    ensures
        sum_by(v.take(k + 1), f) == sum_by(v.take(k), f) + f(v[k]),
{
    assert(v.take(k + 1).drop_last() =~= v.take(k));
}

/// The step of a running sum of `f`.
pub open spec fn adder<A>(f: spec_fn(A) -> u64) -> spec_fn(nat, A) -> nat {
    |acc: nat, x: A| acc + f(x) as nat
}

proof fn lemma_sum_is_fold<A>(v: Seq<A>, f: spec_fn(A) -> u64)
    ensures
        sum_by(v, f) == v.fold_left(0nat, adder(f)),
    decreases v.len(),
{
    if v.len() > 0 {
        lemma_sum_is_fold(v.drop_last(), f);
    }
}

/// A sum does not depend on the order of the items summed.
pub proof fn lemma_sum_order_free<A>(v1: Seq<A>, v2: Seq<A>, f: spec_fn(A) -> u64)
    requires
        v1.to_multiset() == v2.to_multiset(),
    ensures
        sum_by(v1, f) == sum_by(v2, f),
{
    lemma_sum_is_fold(v1, f);
    lemma_sum_is_fold(v2, f);
    assert(commutative_foldl(adder(f)));
    lemma_fold_left_permutation(v1, v2, adder(f), 0nat);
}

/// Bytes received.
pub open spec fn rx_of() -> spec_fn(NetworkMetricsView) -> u64 {
    |m: NetworkMetricsView| m.received_bytes
}

/// Bytes transmitted.
pub open spec fn tx_of() -> spec_fn(NetworkMetricsView) -> u64 {
    |m: NetworkMetricsView| m.transmitted_bytes
}

/// Packets received.
pub open spec fn rx_packets_of() -> spec_fn(NetworkMetricsView) -> u64 {
    |m: NetworkMetricsView| m.packets_received
}

/// Packets transmitted.
pub open spec fn tx_packets_of() -> spec_fn(NetworkMetricsView) -> u64 {
    |m: NetworkMetricsView| m.packets_transmitted
}

/// The interface counters of `v` summed, or `None` where a sum does not fit
/// in 64 bits.
pub open spec fn network_totals_of(v: Seq<NetworkMetricsView>) -> Option<NetworkIoMetrics> {
    if sum_by(v, rx_of()) <= u64::MAX && sum_by(v, tx_of()) <= u64::MAX && sum_by(
        v,
        rx_packets_of(),
    ) <= u64::MAX && sum_by(v, tx_packets_of()) <= u64::MAX {
        Some(
            NetworkIoMetrics {
                rx_bytes: sum_by(v, rx_of()) as u64,
                tx_bytes: sum_by(v, tx_of()) as u64,
                rx_packets: sum_by(v, rx_packets_of()) as u64,
                tx_packets: sum_by(v, tx_packets_of()) as u64,
            },
        )
    } else {
        None
    }
}

/// Adds `x` to the running sum `acc` of `f` over the first `k` items, or
/// reports that the whole sum does not fit.
fn add_checked<A>(acc: u64, x: u64, Ghost(v): Ghost<Seq<A>>, Ghost(k): Ghost<int>, Ghost(f): Ghost<spec_fn(A) -> u64>) -> (r: Option<u64>)
    requires
        0 <= k < v.len(),
        acc == sum_by(v.take(k), f),
        x == f(v[k]),
    ensures
        match r {
            Some(s) => s == sum_by(v.take(k + 1), f),
            None => sum_by(v, f) > u64::MAX,
        },
{
    proof {
        lemma_sum_by_step(v, k, f);
        lemma_sum_by_mono(v, k + 1, f);
    }
    acc.checked_add(x)
}

/// The interface counters summed: received and transmitted bytes and
/// packets. `None` where a sum does not fit in 64 bits.
pub fn network_totals(v: &Vec<NetworkMetrics>) -> (r: Option<NetworkIoMetrics>)
    ensures
        r == network_totals_of(v@.map_values(|x: NetworkMetrics| x@)),
{
    let ghost s = v@.map_values(|x: NetworkMetrics| x@);
    let mut rx: u64 = 0;
    let mut tx: u64 = 0;
    let mut rxp: u64 = 0;
    let mut txp: u64 = 0;
    let mut k: usize = 0;
    while k < v.len()
        invariant
            s == v@.map_values(|x: NetworkMetrics| x@),
            k <= v.len(),
            rx == sum_by(s.take(k as int), rx_of()),
            tx == sum_by(s.take(k as int), tx_of()),
            rxp == sum_by(s.take(k as int), rx_packets_of()),
            txp == sum_by(s.take(k as int), tx_packets_of()),
        decreases v.len() - k,
    {
        let m = &v[k];
        proof {
            assert(s[k as int] == m@);
        }
        let a = add_checked::<NetworkMetricsView>(rx, m.received_bytes, Ghost(s), Ghost(k as int), Ghost(rx_of()));
        let b = add_checked::<NetworkMetricsView>(tx, m.transmitted_bytes, Ghost(s), Ghost(k as int), Ghost(tx_of()));
        let c = add_checked::<NetworkMetricsView>(rxp, m.packets_received, Ghost(s), Ghost(k as int), Ghost(rx_packets_of()));
        let d = add_checked::<NetworkMetricsView>(txp, m.packets_transmitted, Ghost(s), Ghost(k as int), Ghost(tx_packets_of()));
        match (a, b, c, d) {
            (Some(a), Some(b), Some(c), Some(d)) => {
                rx = a;
                tx = b;
                rxp = c;
                txp = d;
            },
            _ => {
                return None;
            },
        }
        k = k + 1;
    }
    proof {
        assert(s.take(v.len() as int) =~= s);
    }
    Some(NetworkIoMetrics { rx_bytes: rx, tx_bytes: tx, rx_packets: rxp, tx_packets: txp })
}

/// Creates the network cache if it does not exist yet.
fn ensure_networks(state: &mut MetricsState)
    ensures
        final(state).networks is Some,
        old(state).networks is Some ==> final(state).networks == old(state).networks,
        final(state).system == old(state).system,
        final(state).disks == old(state).disks,
        final(state).components == old(state).components,
        final(state).os_info == old(state).os_info,
{
    if state.networks.is_none() {
        state.networks = Some(new_networks());
    }
}

/// Refreshes the interface counters and reports each interface once.
pub fn get_networks(state: &mut MetricsState) -> (r: Vec<NetworkMetrics>)
    ensures
        final(state).networks is Some,
        enumerates(r@.map_values(|x: NetworkMetrics| x@), interface_table(final(state).networks->0)),
        final(state).system == old(state).system,
        final(state).disks == old(state).disks,
        final(state).components == old(state).components,
        final(state).os_info == old(state).os_info,
{
    ensure_networks(state);
    match &mut state.networks {
        Some(n) => refresh_networks(n),
        None => {},
    }
    match &state.networks {
        Some(n) => network_samples(n),
        None => {
            proof {
                assert(false);
            }
            Vec::new()
        },
    }
}

/// Refreshes the interface counters and reports their sums over all
/// interfaces; `None` where a sum does not fit in 64 bits.
pub fn get_network_io(state: &mut MetricsState) -> (r: Option<NetworkIoMetrics>)
    ensures
        final(state).networks is Some,
        exists|v: Seq<NetworkMetricsView>|
            enumerates(v, interface_table(final(state).networks->0)) && r == network_totals_of(v),
        final(state).system == old(state).system,
        final(state).disks == old(state).disks,
        final(state).components == old(state).components,
        final(state).os_info == old(state).os_info,
{
    let nets = get_networks(state);
    let r = network_totals(&nets);
    proof {
        let v = nets@.map_values(|x: NetworkMetrics| x@);
        assert(enumerates(v, interface_table(state.networks->0)) && r == network_totals_of(v));
    }
    r
}

/// Bytes read.
pub open spec fn read_of() -> spec_fn((u64, u64)) -> u64 {
    |p: (u64, u64)| p.0
}

/// Bytes written.
pub open spec fn written_of() -> spec_fn((u64, u64)) -> u64 {
    |p: (u64, u64)| p.1
}

/// The (read, written) pairs of `v` summed, or `None` where a sum does not
/// fit in 64 bits.
pub open spec fn disk_io_totals_of(v: Seq<(u64, u64)>) -> Option<DiskIoMetrics> {
    if sum_by(v, read_of()) <= u64::MAX && sum_by(v, written_of()) <= u64::MAX {
        Some(
            DiskIoMetrics {
                read_bytes: sum_by(v, read_of()) as u64,
                written_bytes: sum_by(v, written_of()) as u64,
            },
        )
    } else {
        None
    }
}

/// Read and written bytes summed over processes; `None` where a sum does not
/// fit in 64 bits.
pub fn disk_io_totals(v: &Vec<(u64, u64)>) -> (r: Option<DiskIoMetrics>)
    ensures
        r == disk_io_totals_of(v@),
{
    let mut read: u64 = 0;
    let mut written: u64 = 0;
    let mut k: usize = 0;
    while k < v.len()
        invariant
            k <= v.len(),
            read == sum_by(v@.take(k as int), read_of()),
            written == sum_by(v@.take(k as int), written_of()),
        decreases v.len() - k,
    {
        let (rd, wr) = v[k];
        let a = add_checked::<(u64, u64)>(read, rd, Ghost(v@), Ghost(k as int), Ghost(read_of()));
        let b = add_checked::<(u64, u64)>(written, wr, Ghost(v@), Ghost(k as int), Ghost(written_of()));
        match (a, b) {
            (Some(a), Some(b)) => {
                read = a;
                written = b;
            },
            _ => {
                return None;
            },
        }
        k = k + 1;
    }
    proof {
        assert(v@.take(v.len() as int) =~= v@);
    }
    Some(DiskIoMetrics { read_bytes: read, written_bytes: written })
}

/// Refreshes the process list and reports the bytes read and written since
/// the last refresh, summed over all processes; `None` where a sum does not
/// fit in 64 bits.
pub fn get_disk_io(state: &mut MetricsState) -> (r: Option<DiskIoMetrics>)
    ensures
        final(state).system is Some,
        exists|v: Seq<(u64, u64)>|
            v.to_multiset() == process_io(final(state).system->0) && r == disk_io_totals_of(v),
        final(state).disks == old(state).disks,
        final(state).networks == old(state).networks,
        final(state).components == old(state).components,
        final(state).os_info == old(state).os_info,
{
    ensure_system(state);
    match &mut state.system {
        Some(s) => refresh_all_processes(s),
        None => {},
    }
    let usage = match &state.system {
        Some(s) => process_io_samples(s),
        None => {
            proof {
                assert(false);
            }
            Vec::new()
        },
    };
    let r = disk_io_totals(&usage);
    proof {
        assert(usage@.to_multiset() == process_io(state.system->0) && r == disk_io_totals_of(usage@));
    }
    r
}

/// Seconds since the machine booted.
pub fn get_uptime() -> u64 {
    uptime_seconds()
}

fn copy_string(s: &String) -> (r: String)
    ensures
        r@ == s@,
{
    s.clone()
}

fn copy_os_info(o: &OsInfo) -> (r: OsInfo)
    ensures
        r@ == o@,
{
    OsInfo {
        name: copy_string(&o.name),
        kernel_version: copy_string(&o.kernel_version),
        os_version: copy_string(&o.os_version),
        host_name: copy_string(&o.host_name),
    }
}

fn or_empty(s: Option<String>) -> (r: String)
    ensures
        r@ == answer_text(opt_view(s)),
{
    match s {
        Some(x) => x,
        None => String::new(),
    }
}

/// The text of one answer of the operating system: empty where it gave none.
pub open spec fn answer_text(a: Option<Seq<char>>) -> Seq<char> {
    match a {
        Some(x) => x,
        None => Seq::empty(),
    }
}

/// The identity record of the operating system's answers, each field empty
/// where no answer was given.
pub fn os_info_of(
    name: Option<String>,
    kernel_version: Option<String>,
    os_version: Option<String>,
    host_name: Option<String>,
) -> (r: OsInfo)
    ensures
        r@.name == answer_text(opt_view(name)),
        r@.kernel_version == answer_text(opt_view(kernel_version)),
        r@.os_version == answer_text(opt_view(os_version)),
        r@.host_name == answer_text(opt_view(host_name)),
{
    OsInfo {
        name: or_empty(name),
        kernel_version: or_empty(kernel_version),
        os_version: or_empty(os_version),
        host_name: or_empty(host_name),
    }
}

/// The operating system's name, kernel version, version and host name, each
/// empty where the machine does not tell it. Read once: later calls give the
/// first answer and change nothing.
pub fn get_os_info(state: &mut MetricsState) -> (r: OsInfo)
    ensures
        old(state).os_info matches Some(c) ==> r@ == c@ && *final(state) == *old(state),
        old(state).os_info is None ==> (final(state).os_info matches Some(c) && c@ == r@),
        final(state).system == old(state).system,
        final(state).disks == old(state).disks,
        final(state).networks == old(state).networks,
        final(state).components == old(state).components,
{
    match &state.os_info {
        Some(cached) => {
            return copy_os_info(cached);
        },
        None => {},
    }
    let info = os_info_of(os_name(), kernel_version(), os_version(), host_name());
    state.os_info = Some(copy_os_info(&info));
    info
}

/// Releases the library's internal resources: every cache is dropped. The
/// getters create what they need again, so later calls work as before.
pub fn cleanup_metrics(state: &mut MetricsState)
    ensures
        final(state).system is None,
        final(state).disks is None,
        final(state).networks is None,
        final(state).components is None,
        final(state).os_info is None,
{
    state.system = None;
    state.disks = None;
    state.networks = None;
    state.components = None;
    state.os_info = None;
}

/// A refresh request's bits above the six flags have no effect: the request
/// leaves the caches as the same request without those bits would.
pub proof fn lemma_refresh_ignores_unknown_bits(flags: u32, before: MetricsState, after: MetricsState)
    ensures
        refreshed(plan_of(flags), before, after) == refreshed(plan_of(flags & 63), before, after),
{
    lemma_unknown_bits_ignored(flags);
}

/// A sensor label (already lower-cased) names a processor sensor.
pub open spec fn is_core_label(l: Seq<char>) -> bool {
    contains_seq(l, "core"@) || contains_seq(l, "cpu"@) || contains_seq(l, "package"@)
}

/// The indices below `k` of the processor sensors among `labels`.
pub open spec fn core_indices_upto(labels: Seq<Seq<char>>, k: int) -> Seq<usize>
    decreases k,
{
    if k <= 0 {
        seq![]
    } else if is_core_label(labels[k - 1]) {
        core_indices_upto(labels, k - 1).push((k - 1) as usize)
    } else {
        core_indices_upto(labels, k - 1)
    }
}

/// The sensors reported as processor temperatures, given the lower-cased
/// labels: those whose label holds "core", "cpu" or "package"; where there is
/// none, every sensor.
pub open spec fn core_sensor_indices(labels: Seq<Seq<char>>) -> Seq<usize> {
    let matching = core_indices_upto(labels, labels.len() as int);
    if matching.len() > 0 {
        matching
    } else {
        Seq::new(labels.len(), |i: int| i as usize)
    }
}

/// Selects the processor sensors among lower-cased labels.
pub fn select_core_sensors(lowered: &Vec<String>) -> (r: Vec<usize>)
    ensures
        r@ == core_sensor_indices(string_views(lowered@)),
{
    let ghost labels = string_views(lowered@);
    let core = chars_of("core");
    let cpu = chars_of("cpu");
    let package = chars_of("package");
    let mut matching: Vec<usize> = Vec::new();
    let mut k: usize = 0;
    while k < lowered.len()
        invariant
            labels == string_views(lowered@),
            k <= lowered.len(),
            core@ == "core"@,
            cpu@ == "cpu"@,
            package@ == "package"@,
            matching@ == core_indices_upto(labels, k as int),
        decreases lowered.len() - k,
    {
        let l = chars_of(lowered[k].as_str());
        proof {
            assert(l@ == labels[k as int]);
        }
        if contains(&l, &core) || contains(&l, &cpu) || contains(&l, &package) {
            matching.push(k);
        }
        k = k + 1;
    }
    if matching.len() > 0 {
        return matching;
    }
    let mut all: Vec<usize> = Vec::new();
    let mut j: usize = 0;
    while j < lowered.len()
        invariant
            j <= lowered.len(),
            all@ == Seq::new(j as nat, |i: int| i as usize),
        decreases lowered.len() - j,
    {
        all.push(j);
        proof {
            assert(all@ =~= Seq::new((j + 1) as nat, |i: int| i as usize));
        }
        j = j + 1;
    }
    all
}

/// The sensors reported as processor temperatures, given the raw labels:
/// each label is lower-cased first.
pub fn core_sensors(labels: &Vec<String>) -> (r: Vec<usize>)
    ensures
        r@ == core_sensor_indices(lowered_views(labels@)),
{
    let mut lowered: Vec<String> = Vec::new();
    let mut k: usize = 0;
    while k < labels.len()
        invariant
            k <= labels.len(),
            lowered.len() == k,
            string_views(lowered@) == lowered_views(labels@.take(k as int)),
        decreases labels.len() - k,
    {
        let ghost prev = lowered@;
        lowered.push(to_lowercase(labels[k].as_str()));
        proof {
            assert forall|i: int| 0 <= i < k + 1 implies #[trigger] string_views(lowered@)[i]
                == lowered_views(labels@.take(k + 1))[i] by {
                if i < k {
                    assert(lowered@[i] == prev[i]);
                    assert(string_views(prev)[i] == lowered_views(labels@.take(k as int))[i]);
                }
            }
            assert(string_views(lowered@) =~= lowered_views(labels@.take(k + 1)));
        }
        k = k + 1;
    }
    proof {
        assert(labels@.take(labels.len() as int) =~= labels@);
    }
    select_core_sensors(&lowered)
}

/// Creates the sensor cache if it does not exist yet.
fn ensure_components(state: &mut MetricsState)
    ensures
        final(state).components is Some,
        old(state).components is Some ==> final(state).components == old(state).components,
        final(state).system == old(state).system,
        final(state).disks == old(state).disks,
        final(state).networks == old(state).networks,
        final(state).os_info == old(state).os_info,
{
    if state.components.is_none() {
        state.components = Some(new_components());
    }
}

/// Re-reads the sensor list and its readings.
pub fn prepare_components(state: &mut MetricsState)
    ensures
        final(state).components is Some,
        final(state).system == old(state).system,
        final(state).disks == old(state).disks,
        final(state).networks == old(state).networks,
        final(state).os_info == old(state).os_info,
{
    ensure_components(state);
    match &mut state.components {
        Some(c) => {
            refresh_component_list(c);
            refresh_components(c);
        },
        None => {},
    }
}

/// Re-reads the sensors and picks those reported as processor temperatures:
/// the indices, in the sensor list, of the sensors whose lower-cased label
/// holds "core", "cpu" or "package", or of every sensor where none does.
pub fn get_cpu_core_temperatures(state: &mut MetricsState) -> (r: Vec<usize>)
    ensures
        final(state).components is Some,
        r@ == core_sensor_indices(
            component_labels(final(state).components->0).map_values(|l: Seq<char>| lowercase(l)),
        ),
        final(state).system == old(state).system,
        final(state).disks == old(state).disks,
        final(state).networks == old(state).networks,
        final(state).os_info == old(state).os_info,
{
    prepare_components(state);
    let labels = match &state.components {
        Some(c) => sensor_labels(c),
        None => {
            proof {
                assert(false);
            }
            Vec::new()
        },
    };
    proof {
        assert(lowered_views(labels@) =~= component_labels(
            state.components->0,
        ).map_values(|l: Seq<char>| lowercase(l)));
    }
    core_sensors(&labels)
}

/// Re-reads processor usage and frequency.
pub fn prepare_cpus(state: &mut MetricsState)
    ensures
        final(state).system is Some,
        final(state).disks == old(state).disks,
        final(state).networks == old(state).networks,
        final(state).components == old(state).components,
        final(state).os_info == old(state).os_info,
{
    ensure_system(state);
    match &mut state.system {
        Some(s) => refresh_cpu(s),
        None => {},
    }
}

/// Re-reads the whole process list, dropping dead processes.
pub fn prepare_processes(state: &mut MetricsState)
    ensures
        final(state).system is Some,
        final(state).disks == old(state).disks,
        final(state).networks == old(state).networks,
        final(state).components == old(state).components,
        final(state).os_info == old(state).os_info,
{
    ensure_system(state);
    match &mut state.system {
        Some(s) => refresh_all_processes(s),
        None => {},
    }
}

/// Re-reads the one process `pid`.
pub fn prepare_process(state: &mut MetricsState, pid: u32)
    ensures
        final(state).system is Some,
        final(state).disks == old(state).disks,
        final(state).networks == old(state).networks,
        final(state).components == old(state).components,
        final(state).os_info == old(state).os_info,
{
    ensure_system(state);
    match &mut state.system {
        Some(s) => refresh_one_process(s, pid),
        None => {},
    }
}

/// Two listings of the same interface table hold the same records.
proof fn lemma_enumerations_same_multiset(
    v1: Seq<NetworkMetricsView>,
    v2: Seq<NetworkMetricsView>,
    t: Map<Seq<char>, NetCounters>,
)
    requires
        enumerates(v1, t),
        enumerates(v2, t),
    ensures
        v1.to_multiset() == v2.to_multiset(),
{
    broadcast use vstd::seq_lib::group_to_multiset_ensures;

    assert(v1.no_duplicates()) by {
        assert forall|i: int, j: int| 0 <= i < v1.len() && 0 <= j < v1.len() && i != j implies v1[i]
            != v1[j] by {
            if i < j {
                assert(v1[i].interface != v1[j].interface);
            } else {
                assert(v1[j].interface != v1[i].interface);
            }
        }
    }
    assert(v2.no_duplicates()) by {
        assert forall|i: int, j: int| 0 <= i < v2.len() && 0 <= j < v2.len() && i != j implies v2[i]
            != v2[j] by {
            if i < j {
                assert(v2[i].interface != v2[j].interface);
            } else {
                assert(v2[j].interface != v2[i].interface);
            }
        }
    }
    v1.lemma_multiset_has_no_duplicates();
    v2.lemma_multiset_has_no_duplicates();
    assert forall|x: NetworkMetricsView| v1.contains(x) implies v2.contains(x) by {
        let i = choose|i: int| 0 <= i < v1.len() && v1[i] == x;
        assert(t.contains_key(v1[i].interface));
        let j = choose|j: int| 0 <= j < v2.len() && #[trigger] v2[j].interface == x.interface;
        assert(v2[j] == x);
    }
    assert forall|x: NetworkMetricsView| v2.contains(x) implies v1.contains(x) by {
        let j = choose|j: int| 0 <= j < v2.len() && v2[j] == x;
        assert(t.contains_key(v2[j].interface));
        let i = choose|i: int| 0 <= i < v1.len() && #[trigger] v1[i].interface == x.interface;
        assert(v1[i] == x);
    }
    assert forall|x: NetworkMetricsView| v1.to_multiset().count(x) == v2.to_multiset().count(x) by {
        if v1.contains(x) {
            assert(v1.to_multiset().contains(x));
            assert(v2.to_multiset().contains(x));
        } else {
            assert(!v2.contains(x));
        }
    }
    assert(v1.to_multiset() =~= v2.to_multiset());
}

/// The network I/O totals of an interface table are the same whatever order
/// its interfaces are listed in.
pub proof fn lemma_network_totals_order_free(
    v1: Seq<NetworkMetricsView>,
    v2: Seq<NetworkMetricsView>,
    t: Map<Seq<char>, NetCounters>,
)
    requires
        enumerates(v1, t),
        enumerates(v2, t),
    ensures
        network_totals_of(v1) == network_totals_of(v2),
{
    lemma_enumerations_same_multiset(v1, v2, t);
    lemma_sum_order_free(v1, v2, rx_of());
    lemma_sum_order_free(v1, v2, tx_of());
    lemma_sum_order_free(v1, v2, rx_packets_of());
    lemma_sum_order_free(v1, v2, tx_packets_of());
}

/// The disk I/O totals of a process table are the same whatever order its
/// processes are listed in.
pub proof fn lemma_disk_io_order_free(v1: Seq<(u64, u64)>, v2: Seq<(u64, u64)>)
    requires
        v1.to_multiset() == v2.to_multiset(),
    ensures
        disk_io_totals_of(v1) == disk_io_totals_of(v2),
{
    lemma_sum_order_free(v1, v2, read_of());
    lemma_sum_order_free(v1, v2, written_of());
}

/// Where the network I/O totals fit, each is the sum of that counter over the
/// interfaces listed.
pub proof fn lemma_network_totals_are_sums(v: Seq<NetworkMetricsView>)
    ensures
        network_totals_of(v) matches Some(t) ==> {
            &&& t.rx_bytes == sum_by(v, rx_of())
            &&& t.tx_bytes == sum_by(v, tx_of())
            &&& t.rx_packets == sum_by(v, rx_packets_of())
            &&& t.tx_packets == sum_by(v, tx_packets_of())
        },
        network_totals_of(v) is None ==> {
            ||| sum_by(v, rx_of()) > u64::MAX
            ||| sum_by(v, tx_of()) > u64::MAX
            ||| sum_by(v, rx_packets_of()) > u64::MAX
            ||| sum_by(v, tx_packets_of()) > u64::MAX
        },
{
}

/// Every disk record's used and available space add up to its total space.
pub proof fn lemma_disk_space_adds_up(d: DiskSampleView)
    requires
        d.available_space <= d.total_space,
    ensures
        disk_metrics_of(d).used_space + disk_metrics_of(d).available_space == disk_metrics_of(
            d,
        ).total_space,
{
}

proof fn lemma_core_indices_shape(labels: Seq<Seq<char>>, k: int)
    requires
        0 <= k <= labels.len(),
        labels.len() <= usize::MAX,
    ensures
        core_indices_upto(labels, k).len() <= k,
        forall|i: int|
            0 <= i < core_indices_upto(labels, k).len() ==> #[trigger] core_indices_upto(labels, k)[i]
                < k,
        forall|i: int, j: int|
            0 <= i < j < core_indices_upto(labels, k).len() ==> #[trigger] core_indices_upto(
                labels,
                k,
            )[i] < #[trigger] core_indices_upto(labels, k)[j],
        forall|i: int|
            0 <= i < core_indices_upto(labels, k).len() ==> is_core_label(
                labels[#[trigger] core_indices_upto(labels, k)[i] as int],
            ),
        forall|m: int|
            0 <= m < k && is_core_label(#[trigger] labels[m]) ==> core_indices_upto(labels, k).contains(
                m as usize,
            ),
    decreases k,
{
    if k > 0 {
        lemma_core_indices_shape(labels, k - 1);
        let prev = core_indices_upto(labels, k - 1);
        if is_core_label(labels[k - 1]) {
            assert(core_indices_upto(labels, k) == prev.push((k - 1) as usize));
            assert(((k - 1) as usize) as int == k - 1);
            assert forall|m: int| 0 <= m < k && is_core_label(#[trigger] labels[m]) implies core_indices_upto(
                labels,
                k,
            ).contains(m as usize) by {
                if m < k - 1 {
                    let w = choose|w: int| 0 <= w < prev.len() && prev[w] == m as usize;
                    assert(core_indices_upto(labels, k)[w] == m as usize);
                } else {
                    assert(core_indices_upto(labels, k)[prev.len() as int] == m as usize);
                }
            }
        }
    }
}

/// The processor sensors picked from a list of lower-cased labels: listed in
/// increasing order, each a sensor of the list; none exactly when the list is
/// empty; where some label names a processor, exactly those sensors, else
/// every sensor.
pub proof fn lemma_core_sensor_selection(labels: Seq<Seq<char>>)
    requires
        labels.len() <= usize::MAX,
    ensures
        (core_sensor_indices(labels).len() == 0) == (labels.len() == 0),
        forall|i: int|
            0 <= i < core_sensor_indices(labels).len() ==> #[trigger] core_sensor_indices(labels)[i]
                < labels.len(),
        forall|i: int, j: int|
            0 <= i < j < core_sensor_indices(labels).len() ==> #[trigger] core_sensor_indices(
                labels,
            )[i] < #[trigger] core_sensor_indices(labels)[j],
        (exists|m: int| 0 <= m < labels.len() && is_core_label(#[trigger] labels[m])) ==> (forall|
            m: int,
        |
            0 <= m < labels.len() ==> (is_core_label(#[trigger] labels[m]) <==> core_sensor_indices(
                labels,
            ).contains(m as usize))),
{
    lemma_core_indices_shape(labels, labels.len() as int);
    let matching = core_indices_upto(labels, labels.len() as int);
    if exists|m: int| 0 <= m < labels.len() && is_core_label(#[trigger] labels[m]) {
        let m = choose|m: int| 0 <= m < labels.len() && is_core_label(#[trigger] labels[m]);
        assert(matching.contains(m as usize));
        assert forall|m: int| 0 <= m < labels.len() implies (is_core_label(#[trigger] labels[m])
            <==> core_sensor_indices(labels).contains(m as usize)) by {
            if matching.contains(m as usize) {
                let w = choose|w: int| 0 <= w < matching.len() && matching[w] == m as usize;
                assert(is_core_label(labels[matching[w] as int]));
            }
        }
    }
    if matching.len() > 0 {
        let w = matching[0];
        assert(labels.len() > 0);
    }
}

/// Which sensors are reported as processor temperatures, by the text of the
/// lower-cased labels alone: a sensor whose label holds `"core"`, `"cpu"` or
/// `"package"` anywhere is reported; where some label holds one, only such
/// sensors are reported; where none does, every sensor is, in order.
pub proof fn lemma_core_sensors_by_text(labels: Seq<Seq<char>>)
    requires
        labels.len() <= usize::MAX,
    ensures
        forall|m: int, i: int|
            0 <= m < labels.len() && 0 <= i && i + 4 <= labels[m].len() && #[trigger] labels[m].subrange(i, i + 4)
                == "core"@ ==> core_sensor_indices(labels).contains(m as usize),
        forall|m: int, i: int|
            0 <= m < labels.len() && 0 <= i && i + 3 <= labels[m].len() && #[trigger] labels[m].subrange(i, i + 3)
                == "cpu"@ ==> core_sensor_indices(labels).contains(m as usize),
        forall|m: int, i: int|
            0 <= m < labels.len() && 0 <= i && i + 7 <= labels[m].len() && #[trigger] labels[m].subrange(i, i + 7)
                == "package"@ ==> core_sensor_indices(labels).contains(m as usize),
        (exists|m: int| 0 <= m < labels.len() && #[trigger] names_processor(labels[m])) ==> forall|k: int|
            0 <= k < core_sensor_indices(labels).len() ==> names_processor(
                labels[#[trigger] core_sensor_indices(labels)[k] as int],
            ),
        (forall|m: int| 0 <= m < labels.len() ==> !#[trigger] names_processor(labels[m]))
            ==> core_sensor_indices(labels) == Seq::new(labels.len(), |j: int| j as usize),
{
    reveal_strlit("core");
    reveal_strlit("cpu");
    reveal_strlit("package");
    lemma_core_sensor_selection(labels);
    lemma_core_indices_shape(labels, labels.len() as int);
    assert forall|l: Seq<char>| #[trigger] is_core_label(l) <==> names_processor(l) by {
        if is_core_label(l) {
            if contains_seq(l, "core"@) {
                let i = choose|i: int| 0 <= i && i + "core"@.len() <= l.len() && #[trigger] l.subrange(i, i + "core"@.len()) == "core"@;
                assert(processor_word_at(l, i));
            } else if contains_seq(l, "cpu"@) {
                let i = choose|i: int| 0 <= i && i + "cpu"@.len() <= l.len() && #[trigger] l.subrange(i, i + "cpu"@.len()) == "cpu"@;
                assert(processor_word_at(l, i));
            } else {
                let i = choose|i: int| 0 <= i && i + "package"@.len() <= l.len() && #[trigger] l.subrange(i, i + "package"@.len()) == "package"@;
                assert(processor_word_at(l, i));
            }
        }
        if exists|i: int| 0 <= i && processor_word_at(l, i) {
            let i = choose|i: int| 0 <= i && processor_word_at(l, i);
            if i + 4 <= l.len() && l.subrange(i, i + 4) == "core"@ {
                assert(l.subrange(i, i + "core"@.len()) == "core"@);
                assert(contains_seq(l, "core"@));
            } else if i + 3 <= l.len() && l.subrange(i, i + 3) == "cpu"@ {
                assert(l.subrange(i, i + "cpu"@.len()) == "cpu"@);
                assert(contains_seq(l, "cpu"@));
            } else {
                assert(l.subrange(i, i + "package"@.len()) == "package"@);
                assert(contains_seq(l, "package"@));
            }
        }
    }
    let n = labels.len() as int;
    assert forall|m: int, i: int|
        0 <= m < n && 0 <= i && i + 3 <= labels[m].len() && #[trigger] labels[m].subrange(i, i + 3) == "cpu"@
        implies core_sensor_indices(labels).contains(m as usize) by {
        assert(processor_word_at(labels[m], i));
        assert(is_core_label(labels[m]));
    }
    assert forall|m: int, i: int|
        0 <= m < n && 0 <= i && i + 4 <= labels[m].len() && #[trigger] labels[m].subrange(i, i + 4) == "core"@
        implies core_sensor_indices(labels).contains(m as usize) by {
        assert(processor_word_at(labels[m], i));
        assert(is_core_label(labels[m]));
    }
    assert forall|m: int, i: int|
        0 <= m < n && 0 <= i && i + 7 <= labels[m].len() && #[trigger] labels[m].subrange(i, i + 7) == "package"@
        implies core_sensor_indices(labels).contains(m as usize) by {
        assert(processor_word_at(labels[m], i));
        assert(is_core_label(labels[m]));
    }
    let sel = core_sensor_indices(labels);
    if exists|m: int| 0 <= m < n && #[trigger] names_processor(labels[m]) {
        let m0 = choose|m: int| 0 <= m < n && #[trigger] names_processor(labels[m]);
        assert(is_core_label(labels[m0]));
        assert forall|k: int| 0 <= k < sel.len() implies names_processor(labels[#[trigger] sel[k] as int]) by {
            let j = sel[k] as int;
            assert(0 <= j < n);
            assert(j as usize == sel[k]);
            assert(sel.contains(sel[k]));
            assert(is_core_label(labels[j]) <==> sel.contains(j as usize));
            assert(is_core_label(labels[j]));
        }
    }
    if forall|m: int| 0 <= m < n ==> !#[trigger] names_processor(labels[m]) {
        let matching = core_indices_upto(labels, n);
        if matching.len() > 0 {
            assert(is_core_label(labels[matching[0] as int]));
        }
    }
}

/// One of `"core"`, `"cpu"` or `"package"` occurs somewhere in `l`.
pub open spec fn names_processor(l: Seq<char>) -> bool {
    exists|i: int| 0 <= i && #[trigger] processor_word_at(l, i)
}

/// One of `"core"`, `"cpu"` or `"package"` starts at index `i` of `l`.
pub open spec fn processor_word_at(l: Seq<char>, i: int) -> bool {
    ||| i + 4 <= l.len() && l.subrange(i, i + 4) == "core"@
    ||| i + 3 <= l.len() && l.subrange(i, i + 3) == "cpu"@
    ||| i + 7 <= l.len() && l.subrange(i, i + 7) == "package"@
}

/// A disk record carries the disk's own name, mount point, file system,
/// total and available space, and its used space is total less available.
pub proof fn lemma_disk_record_fields(d: DiskSampleView)
    requires
        d.available_space <= d.total_space,
    ensures
        disk_metrics_of(d).name == d.name,
        disk_metrics_of(d).mount_point == d.mount_point,
        disk_metrics_of(d).file_system == d.file_system,
        disk_metrics_of(d).total_space == d.total_space,
        disk_metrics_of(d).available_space == d.available_space,
        disk_metrics_of(d).used_space == d.total_space - d.available_space,
{
}

/// The traffic totals count each counter of its own kind: received bytes
/// into received bytes, transmitted into transmitted, and likewise for
/// packets; disk totals count read bytes into read and written into written.
/// A single interface's (or process's) totals are its own counters.
pub proof fn lemma_totals_count_like_with_like(m: NetworkMetricsView, io: (u64, u64))
    ensures
        rx_of()(m) == m.received_bytes,
        tx_of()(m) == m.transmitted_bytes,
        rx_packets_of()(m) == m.packets_received,
        tx_packets_of()(m) == m.packets_transmitted,
        read_of()(io) == io.0,
        written_of()(io) == io.1,
        network_totals_of(seq![m]) == Some(
            NetworkIoMetrics {
                rx_bytes: m.received_bytes,
                tx_bytes: m.transmitted_bytes,
                rx_packets: m.packets_received,
                tx_packets: m.packets_transmitted,
            },
        ),
        disk_io_totals_of(seq![io]) == Some(DiskIoMetrics { read_bytes: io.0, written_bytes: io.1 }),
{
    let v = seq![m];
    let w = seq![io];
    assert(v.drop_last() =~= Seq::<NetworkMetricsView>::empty());
    assert(w.drop_last() =~= Seq::<(u64, u64)>::empty());
    assert(v.last() == m && w.last() == io);
    reveal_with_fuel(sum_by, 2);
    assert(sum_by(v, rx_of()) == m.received_bytes);
    assert(sum_by(v, tx_of()) == m.transmitted_bytes);
    assert(sum_by(v, rx_packets_of()) == m.packets_received);
    assert(sum_by(v, tx_packets_of()) == m.packets_transmitted);
    assert(sum_by(w, read_of()) == io.0);
    assert(sum_by(w, written_of()) == io.1);
}

} // verus!
