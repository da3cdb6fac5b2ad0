use metrics::netstat::{netstat_readable, parse_netstat, split_addr_port};
use metrics::win_net::{
    format_ipv4, format_ipv6, format_tcp_state, port_from_field, reserved_process, tcp6_connection,
    tcp_connection, udp6_connection, udp_connection, Tcp6Row, TcpRow, Udp6Row, UdpRow,
};

const NETSTAT_TCP: &str = "Active Internet connections\nProto Recv-Q Send-Q  Local Address          Foreign Address        (state)\ntcp4       0      0  192.168.1.5.52144      140.82.112.25.443      ESTABLISHED\ntcp6       0      0  *.22                   *.*                    LISTEN\nudp4       0      0  *.5353                 *.*\n\n";

#[test]
fn endpoints_split_at_last_dot() {
    assert_eq!(split_addr_port("192.168.1.5.52144"), ("192.168.1.5".to_string(), 52144));
    assert_eq!(split_addr_port("*.*"), ("*".to_string(), 0));
    assert_eq!(split_addr_port("fe80::1%lo0.631"), ("fe80::1%lo0".to_string(), 631));
    assert_eq!(split_addr_port("localhost"), ("localhost".to_string(), 0));
    assert_eq!(split_addr_port("10.0.0.1.99999"), ("10.0.0.1".to_string(), 0));
}

#[test]
fn netstat_listing_rows() {
    assert!(netstat_readable(NETSTAT_TCP));
    let conns = parse_netstat(NETSTAT_TCP, "TCP");
    assert_eq!(conns.len(), 3);
    assert_eq!(conns[0].local_address, "192.168.1.5");
    assert_eq!(conns[0].local_port, 52144);
    assert_eq!(conns[0].remote_address, "140.82.112.25");
    assert_eq!(conns[0].remote_port, 443);
    assert_eq!(conns[0].state, "ESTABLISHED");
    assert_eq!(conns[0].pid, None);
    assert_eq!(conns[1].local_address, "*");
    assert_eq!(conns[1].local_port, 22);
    assert_eq!(conns[1].state, "LISTEN");
    assert_eq!(conns[2].state, "N/A");
    assert_eq!(conns[2].protocol, "TCP");
    assert!(!netstat_readable("h1\nh2\ntcp4 0 0 *.22\n"));
    assert!(parse_netstat("only one header line", "UDP").is_empty());
}

#[test]
fn windows_addresses_and_ports() {
    assert_eq!(format_ipv4(0x0100007F), "127.0.0.1");
    assert_eq!(format_ipv4(0), "0.0.0.0");
    let mut a = [0u8; 16];
    a[0] = 0xfe;
    a[1] = 0x80;
    a[15] = 1;
    assert_eq!(format_ipv6(a), "fe80:0:0:0:0:0:0:1");
    assert_eq!(format_ipv6([0u8; 16]), "0:0:0:0:0:0:0:0");
    assert_eq!(port_from_field(0x5000), 80);
    assert_eq!(port_from_field(0xABCD_1600), 22);
    assert_eq!(port_from_field(0x0000_BB01), 0x01BB);
}

#[test]
fn windows_states_and_reserved_processes() {
    assert_eq!(format_tcp_state(2), "LISTEN");
    assert_eq!(format_tcp_state(5), "ESTABLISHED");
    assert_eq!(format_tcp_state(12), "DELETE_TCB");
    assert_eq!(format_tcp_state(0), "UNKNOWN");
    assert_eq!(format_tcp_state(13), "UNKNOWN");
    assert_eq!(reserved_process(0).as_deref(), Some("System Idle Process"));
    assert_eq!(reserved_process(4).as_deref(), Some("System"));
    assert_eq!(reserved_process(8), None);
}

#[test]
fn windows_rows_to_connections() {
    let row = TcpRow {
        state: 5,
        local_addr: 0x0100007F,
        local_port: 0x5000,
        remote_addr: 0x0202A8C0,
        remote_port: 0xBB01,
        owning_pid: 321,
    };
    let c = tcp_connection(&row, Some("app.exe".to_string()));
    assert_eq!(c.protocol, "TCP");
    assert_eq!(c.local_address, "127.0.0.1");
    assert_eq!(c.local_port, 80);
    assert_eq!(c.remote_address, "192.168.2.2");
    assert_eq!(c.remote_port, 443);
    assert_eq!(c.state, "ESTABLISHED");
    assert_eq!(c.pid, Some(321));
    assert_eq!(c.process_name.as_deref(), Some("app.exe"));
    let u = udp_connection(&UdpRow { local_addr: 0, local_port: 0x3500, owning_pid: 4 }, None);
    assert_eq!(u.remote_address, "0.0.0.0");
    assert_eq!(u.local_port, 53);
    assert_eq!(u.state, "N/A");
    let t6 = tcp6_connection(
        &Tcp6Row {
            local_addr: [0u8; 16],
            local_port: 0x1600,
            remote_addr: [0u8; 16],
            remote_port: 0,
            state: 2,
            owning_pid: 7,
        },
        None,
    );
    assert_eq!(t6.protocol, "TCP6");
    assert_eq!(t6.local_port, 22);
    assert_eq!(t6.state, "LISTEN");
    let u6 = udp6_connection(&Udp6Row { local_addr: [0u8; 16], local_port: 0, owning_pid: 1 }, None);
    assert_eq!(u6.remote_address, "::");
    assert_eq!(u6.protocol, "UDP6");
}

#[test]
fn split_undoes_join() {
    for (addr, port) in [("10.1.2.3", 0u16), ("a.b.c", 65535), ("", 7), ("fe80::1%en0", 5353)] {
        let joined = format!("{}.{}", addr, port);
        assert_eq!(split_addr_port(&joined), (addr.to_string(), port));
    }
}
