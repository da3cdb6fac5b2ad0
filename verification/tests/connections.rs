use std::collections::HashMap;

use metrics::proc_net::{
    get_network_connections, parse_address, parse_pid_entry, parse_proc_net, parse_socket_link,
    parse_state, process_comm, record_socket, table_accepts, ProcNetTables,
};

const TCP_TABLE: &str = "  sl  local_address rem_address   st tx_queue rx_queue tr tm->when retrnsmt   uid  timeout inode\n   0: 0100007F:0277 00000000:0000 0A 00000000:00000000 00:00000000 00000000     0        0 12345 1 0000000000000000 100 0 0 10 0\n   1: 0F02000A:0016 0102000A:D431 01 00000000:00000000 02:0000A2C2 00000000     0        0 999 2\n   2: short line\n";

#[test]
fn test_network_connections() {
    let tables = ProcNetTables { tcp: None, tcp6: None, udp: None, udp6: None };
    let conns = get_network_connections(&tables, &HashMap::new());
    println!("Found {} network connections", conns.len());
    for (i, conn) in conns.iter().take(10).enumerate() {
        println!(
            "Conn {}: {} {} -> {} (Stat: {}, PID: {:?})",
            i, conn.protocol, conn.local_address, conn.remote_address, conn.state, conn.pid
        );
    }
}

#[test]
fn ipv4_address_is_little_endian_dotted_decimal() {
    assert_eq!(parse_address("0100007F:0050"), ("127.0.0.1".to_string(), 80));
    assert_eq!(parse_address("0F02000A:D431"), ("10.0.2.15".to_string(), 0xD431));
}

#[test]
fn ipv6_address_groups_words() {
    let (addr, port) = parse_address("00000000000000000000000001000000:0016");
    assert_eq!(addr, "0000:0000:0000:0000:0000:0000:0100:0000");
    assert_eq!(port, 22);
    let (addr, _) = parse_address("B80D01200000000067452301EFCDAB89:0000");
    assert_eq!(addr, "b80d:0120:0000:0000:6745:2301:efcd:ab89");
}

#[test]
fn malformed_addresses() {
    assert_eq!(parse_address("0100007F"), ("Unknown".to_string(), 0));
    assert_eq!(parse_address("01:00:007F"), ("Unknown".to_string(), 0));
    assert_eq!(parse_address("ABC:0050"), ("Unknown".to_string(), 80));
    assert_eq!(parse_address("ZZZZZZZZ:ZZ"), ("0.0.0.0".to_string(), 0));
    assert_eq!(parse_address("+100007F:+050"), ("127.0.0.1".to_string(), 80));
}

#[test]
fn socket_states() {
    assert_eq!(parse_state("0A", "TCP"), "LISTEN");
    assert_eq!(parse_state("01", "TCP6"), "ESTABLISHED");
    assert_eq!(parse_state("0B", "TCP"), "CLOSING");
    assert_eq!(parse_state("07", "UDP"), "N/A");
    assert_eq!(parse_state("01", "UDP6"), "N/A");
    assert_eq!(parse_state("0a", "TCP"), "UNKNOWN");
    assert_eq!(parse_state("0C", "TCP"), "UNKNOWN");
}

#[test]
fn proc_net_rows_joined_to_owners() {
    let mut owners: HashMap<u64, (u32, String)> = HashMap::new();
    owners.insert(12345, (42, "sshd".to_string()));
    assert!(table_accepts(TCP_TABLE));
    let conns = parse_proc_net(TCP_TABLE, "TCP", &owners);
    assert_eq!(conns.len(), 2);
    let c = &conns[0];
    assert_eq!(c.protocol, "TCP");
    assert_eq!(c.local_address, "127.0.0.1");
    assert_eq!(c.local_port, 631);
    assert_eq!(c.remote_address, "0.0.0.0");
    assert_eq!(c.remote_port, 0);
    assert_eq!(c.state, "LISTEN");
    assert_eq!(c.pid, Some(42));
    assert_eq!(c.process_name.as_deref(), Some("sshd"));
    let d = &conns[1];
    assert_eq!(d.local_address, "10.0.2.15");
    assert_eq!(d.local_port, 22);
    assert_eq!(d.remote_address, "10.0.2.1");
    assert_eq!(d.remote_port, 0xD431);
    assert_eq!(d.state, "ESTABLISHED");
    assert_eq!(d.pid, None);
    assert_eq!(d.process_name, None);
}

#[test]
fn proc_net_header_only_or_empty() {
    let owners: HashMap<u64, (u32, String)> = HashMap::new();
    assert!(parse_proc_net("", "TCP", &owners).is_empty());
    assert!(parse_proc_net("sl local rem st\n", "TCP", &owners).is_empty());
}

#[test]
fn connections_listed_table_by_table() {
    let owners: HashMap<u64, (u32, String)> = HashMap::new();
    let udp = "header\n 0: 00000000:0044 00000000:0000 07 0 0 0 0 0 777\n".to_string();
    let tables = ProcNetTables {
        tcp: Some(TCP_TABLE.to_string()),
        tcp6: None,
        udp: Some(udp),
        udp6: None,
    };
    let conns = get_network_connections(&tables, &owners);
    assert_eq!(conns.len(), 3);
    assert_eq!(conns[0].protocol, "TCP");
    assert_eq!(conns[2].protocol, "UDP");
    assert_eq!(conns[2].state, "N/A");
    assert_eq!(conns[2].local_port, 0x44);
}

#[test]
fn proc_entries_and_socket_links() {
    assert_eq!(parse_pid_entry("1234"), Some(1234));
    assert_eq!(parse_pid_entry("self"), None);
    assert_eq!(parse_pid_entry(""), None);
    assert_eq!(parse_pid_entry("99999999999"), None);
    assert_eq!(parse_socket_link("socket:[4242]"), Some(4242));
    assert_eq!(parse_socket_link("socket:[]"), None);
    assert_eq!(parse_socket_link("pipe:[4242]"), None);
    assert_eq!(parse_socket_link("socket:[42"), None);
    assert_eq!(process_comm(&Some("bash\n".to_string())), "bash");
    assert_eq!(process_comm(&None), "Unknown");
    let mut map: HashMap<u64, (u32, String)> = HashMap::new();
    record_socket(&mut map, "socket:[7]", 3, &"init".to_string());
    record_socket(&mut map, "/dev/null", 3, &"init".to_string());
    assert_eq!(map.len(), 1);
    assert_eq!(map.get(&7), Some(&(3, "init".to_string())));
}
