//! The rows of Windows' extended TCP and UDP tables, turned into
//! connections. The rows' fields are read by the caller; Windows runs
//! little-endian, and the byte orders below are the ones it gives.
use vstd::prelude::*;

use crate::num::{hex, push_radix};
use crate::proc_net::ipv4_text;
use crate::text::{owned, string_of};
use crate::types::{opt_view, ConnectionView, NetworkConnection};

verus! {

/// Dotted-decimal text of an IPv4 address field (its bytes in memory order).
pub fn format_ipv4(addr: u32) -> (r: String)
    ensures
        r@ == ipv4_text(addr as nat),
{
    let mut out: Vec<char> = Vec::new();
    push_radix(&mut out, (addr % 256) as u64, 10);
    out.push('.');
    push_radix(&mut out, ((addr / 256) % 256) as u64, 10);
    out.push('.');
    push_radix(&mut out, ((addr / 65536) % 256) as u64, 10);
    out.push('.');
    push_radix(&mut out, ((addr / 16777216) % 256) as u64, 10);
    proof {
        assert(out@ =~= ipv4_text(addr as nat));
    }
    string_of(&out)
}

/// The first `k` 16-bit groups of an IPv6 address in lower-case hex without
/// leading zeros, separated by colons.
pub open spec fn ipv6_groups(a: Seq<u8>, k: int) -> Seq<char>
    decreases k,
{
    if k <= 0 {
        seq![]
    } else if k == 1 {
        hex(a[0] as nat * 256 + a[1] as nat)
    } else {
        ipv6_groups(a, k - 1) + seq![':'] + hex(
            a[2 * (k - 1)] as nat * 256 + a[2 * (k - 1) + 1] as nat,
        )
    }
}

/// The text of a 16-byte IPv6 address: eight big-endian groups.
pub fn format_ipv6(addr: [u8; 16]) -> (r: String)
    ensures
        r@ == ipv6_groups(addr@, 8),
{
    let mut out: Vec<char> = Vec::new();
    let mut i: usize = 0;
    while i < 8
        invariant
            i <= 8,
            addr@.len() == 16,
            out@ == ipv6_groups(addr@, i as int),
        decreases 8 - i,
    {
        let hi = addr[i * 2] as u64;
        let lo = addr[i * 2 + 1] as u64;
        let ghost before = out@;
        if i > 0 {
            out.push(':');
        }
        push_radix(&mut out, hi * 256 + lo, 16);
        proof {
            if i == 0 {
                assert(out@ =~= ipv6_groups(addr@, 1));
            } else {
                assert(out@ =~= ipv6_groups(addr@, i + 1));
            }
        }
        i = i + 1;
    }
    string_of(&out)
}

/// The name of a TCP table state code.
pub open spec fn tcp_state_name(state: u32) -> Seq<char> {
    if state == 1 {
        "CLOSED"@
    } else if state == 2 {
        "LISTEN"@
    } else if state == 3 {
        "SYN_SENT"@
    } else if state == 4 {
        "SYN_RCVD"@
    } else if state == 5 {
        "ESTABLISHED"@
    } else if state == 6 {
        "FIN_WAIT1"@
    } else if state == 7 {
        "FIN_WAIT2"@
    } else if state == 8 {
        "CLOSE_WAIT"@
    } else if state == 9 {
        "CLOSING"@
    } else if state == 10 {
        "LAST_ACK"@
    } else if state == 11 {
        "TIME_WAIT"@
    } else if state == 12 {
        "DELETE_TCB"@
    } else {
        "UNKNOWN"@
    }
}

/// The Windows `MIB_TCP_STATE` codes: 1 CLOSED, 2 LISTEN, 3 SYN_SENT,
/// 4 SYN_RCVD, 5 ESTABLISHED, 6 FIN_WAIT1, 7 FIN_WAIT2, 8 CLOSE_WAIT,
/// 9 CLOSING, 10 LAST_ACK, 11 TIME_WAIT, 12 DELETE_TCB; any other code is
/// UNKNOWN.
pub proof fn lemma_tcp_state_codes(state: u32)
    ensures
        tcp_state_name(1) == "CLOSED"@,
        tcp_state_name(2) == "LISTEN"@,
        tcp_state_name(3) == "SYN_SENT"@,
        tcp_state_name(4) == "SYN_RCVD"@,
        tcp_state_name(5) == "ESTABLISHED"@,
        tcp_state_name(6) == "FIN_WAIT1"@,
        tcp_state_name(7) == "FIN_WAIT2"@,
        tcp_state_name(8) == "CLOSE_WAIT"@,
        tcp_state_name(9) == "CLOSING"@,
        tcp_state_name(10) == "LAST_ACK"@,
        tcp_state_name(11) == "TIME_WAIT"@,
        tcp_state_name(12) == "DELETE_TCB"@,
        (state == 0 || state > 12) ==> tcp_state_name(state) == "UNKNOWN"@,
{
}

/// The name of a TCP table state code.
pub fn format_tcp_state(state: u32) -> (r: String)
    ensures
        r@ == tcp_state_name(state),
{
    let name = if state == 1 {
        "CLOSED"
    } else if state == 2 {
        "LISTEN"
    } else if state == 3 {
        "SYN_SENT"
    } else if state == 4 {
        "SYN_RCVD"
    } else if state == 5 {
        "ESTABLISHED"
    } else if state == 6 {
        "FIN_WAIT1"
    } else if state == 7 {
        "FIN_WAIT2"
    } else if state == 8 {
        "CLOSE_WAIT"
    } else if state == 9 {
        "CLOSING"
    } else if state == 10 {
        "LAST_ACK"
    } else if state == 11 {
        "TIME_WAIT"
    } else if state == 12 {
        "DELETE_TCB"
    } else {
        "UNKNOWN"
    };
    owned(name)
}

/// A port field: its low 16 bits hold the port in network byte order.
pub open spec fn port_of_field(field: u32) -> u16 {
    let x = field as nat % 65536;
    ((x % 256) * 256 + x / 256) as u16
}

/// A port stored in network byte order (its two bytes swapped) in the low
/// half of a field reads back as that port, whatever the high half holds.
pub proof fn lemma_port_field_round_trip(port: u16, high: u32)
    requires
        high < 65536,
    ensures
        port_of_field((high * 65536 + (port % 256) * 256 + port / 256) as u32) == port,
{
    let x = (port % 256) * 256 + port / 256;
    assert(0 <= x < 65536) by (nonlinear_arith)
        requires
            x == (port % 256) * 256 + port / 256,
            port < 65536,
    ;
    assert((high * 65536 + x) % 65536 == x) by (nonlinear_arith)
        requires
            0 <= x < 65536,
            high >= 0,
    ;
    assert(x % 256 == port / 256 && x / 256 == port % 256) by (nonlinear_arith)
        requires
            x == (port % 256) * 256 + port / 256,
            port < 65536,
    ;
    assert((port / 256) * 256 + port % 256 == port) by (nonlinear_arith)
        requires
            port >= 0,
    ;
}

/// The names Windows gives its reserved processes: 0 is the System Idle
/// Process, 4 is System, and no other process has a name fixed in advance.
pub proof fn lemma_reserved_processes(pid: u32)
    ensures
        reserved_process_name(0) == Some("System Idle Process"@),
        reserved_process_name(4) == Some("System"@),
        pid != 0 && pid != 4 ==> reserved_process_name(pid) is None,
{
}

/// The port a table's port field holds.
pub fn port_from_field(field: u32) -> (p: u16)
    ensures
        p == port_of_field(field),
{
    let x = field % 65536;
    ((x % 256) * 256 + x / 256) as u16
}

/// The names Windows gives processes 0 and 4, which cannot be opened.
pub open spec fn reserved_process_name(pid: u32) -> Option<Seq<char>> {
    if pid == 0 {
        Some("System Idle Process"@)
    } else if pid == 4 {
        Some("System"@)
    } else {
        None
    }
}

/// The name of process 0 or 4; `None` for any other process, whose name must
/// be asked of the system.
pub fn reserved_process(pid: u32) -> (r: Option<String>)
    ensures
        opt_view(r) == reserved_process_name(pid),
{
    if pid == 0 {
        Some(owned("System Idle Process"))
    } else if pid == 4 {
        Some(owned("System"))
    } else {
        None
    }
}

/// The fields of a row of the IPv4 TCP table.
pub struct TcpRow {
    pub state: u32,
    pub local_addr: u32,
    pub local_port: u32,
    pub remote_addr: u32,
    pub remote_port: u32,
    pub owning_pid: u32,
}

/// The connection a row of the IPv4 TCP table describes.
pub fn tcp_connection(row: &TcpRow, process_name: Option<String>) -> (c: NetworkConnection)
    ensures
        c@ == (ConnectionView {
            protocol: "TCP"@,
            local_address: ipv4_text(row.local_addr as nat),
            local_port: port_of_field(row.local_port),
            remote_address: ipv4_text(row.remote_addr as nat),
            remote_port: port_of_field(row.remote_port),
            state: tcp_state_name(row.state),
            pid: Some(row.owning_pid),
            process_name: opt_view(process_name),
        }),
{
    NetworkConnection {
        protocol: owned("TCP"),
        local_address: format_ipv4(row.local_addr),
        local_port: port_from_field(row.local_port),
        remote_address: format_ipv4(row.remote_addr),
        remote_port: port_from_field(row.remote_port),
        state: format_tcp_state(row.state),
        pid: Some(row.owning_pid),
        process_name: process_name,
    }
}

/// The fields of a row of the IPv6 TCP table.
pub struct Tcp6Row {
    pub local_addr: [u8; 16],
    pub local_port: u32,
    pub remote_addr: [u8; 16],
    pub remote_port: u32,
    pub state: u32,
    pub owning_pid: u32,
}

/// The connection a row of the IPv6 TCP table describes.
pub fn tcp6_connection(row: &Tcp6Row, process_name: Option<String>) -> (c: NetworkConnection)
    ensures
        c@ == (ConnectionView {
            protocol: "TCP6"@,
            local_address: ipv6_groups(row.local_addr@, 8),
            local_port: port_of_field(row.local_port),
            remote_address: ipv6_groups(row.remote_addr@, 8),
            remote_port: port_of_field(row.remote_port),
            state: tcp_state_name(row.state),
            pid: Some(row.owning_pid),
            process_name: opt_view(process_name),
        }),
{
    NetworkConnection {
        protocol: owned("TCP6"),
        local_address: format_ipv6(row.local_addr),
        local_port: port_from_field(row.local_port),
        remote_address: format_ipv6(row.remote_addr),
        remote_port: port_from_field(row.remote_port),
        state: format_tcp_state(row.state),
        pid: Some(row.owning_pid),
        process_name: process_name,
    }
}

/// The fields of a row of the IPv4 UDP table.
pub struct UdpRow {
    pub local_addr: u32,
    pub local_port: u32,
    pub owning_pid: u32,
}

/// The socket a row of the IPv4 UDP table describes: no remote end, no state.
pub fn udp_connection(row: &UdpRow, process_name: Option<String>) -> (c: NetworkConnection)
    ensures
        c@ == (ConnectionView {
            protocol: "UDP"@,
            local_address: ipv4_text(row.local_addr as nat),
            local_port: port_of_field(row.local_port),
            remote_address: "0.0.0.0"@,
            remote_port: 0,
            state: "N/A"@,
            pid: Some(row.owning_pid),
            process_name: opt_view(process_name),
        }),
{
    NetworkConnection {
        protocol: owned("UDP"),
        local_address: format_ipv4(row.local_addr),
        local_port: port_from_field(row.local_port),
        remote_address: owned("0.0.0.0"),
        remote_port: 0,
        state: owned("N/A"),
        pid: Some(row.owning_pid),
        process_name: process_name,
    }
}

/// The fields of a row of the IPv6 UDP table.
pub struct Udp6Row {
    pub local_addr: [u8; 16],
    pub local_port: u32,
    pub owning_pid: u32,
}

/// The socket a row of the IPv6 UDP table describes: no remote end, no state.
pub fn udp6_connection(row: &Udp6Row, process_name: Option<String>) -> (c: NetworkConnection)
    ensures
        c@ == (ConnectionView {
            protocol: "UDP6"@,
            local_address: ipv6_groups(row.local_addr@, 8),
            local_port: port_of_field(row.local_port),
            remote_address: "::"@,
            remote_port: 0,
            state: "N/A"@,
            pid: Some(row.owning_pid),
            process_name: opt_view(process_name),
        }),
{
    NetworkConnection {
        protocol: owned("UDP6"),
        local_address: format_ipv6(row.local_addr),
        local_port: port_from_field(row.local_port),
        remote_address: owned("::"),
        remote_port: 0,
        state: owned("N/A"),
        pid: Some(row.owning_pid),
        process_name: process_name,
    }
}

} // verus!
