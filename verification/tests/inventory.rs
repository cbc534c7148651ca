use port_manager::inventory::{
    is_listed, is_port_in_use, list_ports, record_for, snapshot, PortInfo,
};
use port_manager::process::{correlate, ProcessOwner, ProcessScan, ProcessSockets};
use port_manager::socket::{
    merge_tables, PlatformUnavailable, Protocol, RawSocketEntry, TcpState, Transport,
};
use std::collections::HashMap;

fn tcp(host: &str, port: u16, state: TcpState, inode: u64) -> RawSocketEntry {
    RawSocketEntry {
        transport: Transport::Tcp(state),
        local_host: host.to_string(),
        local_port: port,
        remote_host: "0.0.0.0".to_string(),
        remote_port: 0,
        inode,
    }
}

fn udp(host: &str, port: u16, remote_port: u16, inode: u64) -> RawSocketEntry {
    RawSocketEntry {
        transport: Transport::Udp,
        local_host: host.to_string(),
        local_port: port,
        remote_host: "10.0.0.9".to_string(),
        remote_port,
        inode,
    }
}

fn process(pid: i32, name: Option<&str>, inodes: &[u64]) -> ProcessScan {
    Ok(ProcessSockets { pid, name: name.map(|n| n.to_string()), inodes: inodes.to_vec() })
}

#[test]
fn labels_follow_the_usual_names() {
    assert_eq!(Protocol::Tcp.label(), "TCP");
    assert_eq!(Protocol::Udp.label(), "UDP");
    assert_eq!(TcpState::Listen.label(), "LISTEN");
    assert_eq!(TcpState::Established.label(), "ESTABLISHED");
    assert_eq!(TcpState::TimeWait.label(), "TIME_WAIT");
    assert_eq!(TcpState::CloseWait.label(), "CLOSE_WAIT");
    assert_eq!(TcpState::SynSent.label(), "SYN_SENT");
    assert_eq!(TcpState::SynRecv.label(), "SYN_RECV");
    assert_eq!(TcpState::FinWait1.label(), "FIN_WAIT1");
    assert_eq!(TcpState::FinWait2.label(), "FIN_WAIT2");
    assert_eq!(TcpState::Close.label(), "CLOSE");
    assert_eq!(TcpState::LastAck.label(), "LAST_ACK");
    assert_eq!(TcpState::Closing.label(), "CLOSING");
    assert_eq!(TcpState::NewSynRecv.label(), "NEW_SYN_RECV");
    assert_eq!(TcpState::DeleteTcb.label(), "DELETE_TCB");
    assert_eq!(TcpState::Unknown.label(), "UNKNOWN");
    assert_eq!(Transport::Udp.state_label(), "UDP");
    assert_eq!(Transport::Tcp(TcpState::Listen).state_label(), "LISTEN");
    assert_eq!(Transport::Udp.protocol(), Protocol::Udp);
    assert_eq!(Transport::Tcp(TcpState::Close).protocol(), Protocol::Tcp);
}

#[test]
fn tables_are_merged_in_order() {
    let tables = vec![
        Ok(vec![tcp("0.0.0.0", 80, TcpState::Listen, 1), tcp("0.0.0.0", 443, TcpState::Listen, 2)]),
        Ok(vec![]),
        Ok(vec![udp("0.0.0.0", 53, 0, 3)]),
    ];
    let merged = merge_tables(&tables).unwrap();
    assert_eq!(
        merged,
        vec![
            tcp("0.0.0.0", 80, TcpState::Listen, 1),
            tcp("0.0.0.0", 443, TcpState::Listen, 2),
            udp("0.0.0.0", 53, 0, 3),
        ]
    );
}

#[test]
fn failed_tables_are_left_out() {
    let tables = vec![
        Err(PlatformUnavailable),
        Ok(vec![tcp("::", 22, TcpState::Listen, 5)]),
        Err(PlatformUnavailable),
        Ok(vec![udp("::", 123, 0, 6)]),
    ];
    let merged = merge_tables(&tables).unwrap();
    assert_eq!(merged, vec![tcp("::", 22, TcpState::Listen, 5), udp("::", 123, 0, 6)]);
}

#[test]
fn reader_is_unavailable_only_if_every_table_failed() {
    let all_failed: Vec<Result<Vec<RawSocketEntry>, PlatformUnavailable>> =
        vec![Err(PlatformUnavailable), Err(PlatformUnavailable)];
    assert_eq!(merge_tables(&all_failed), Err(PlatformUnavailable));
    let none: Vec<Result<Vec<RawSocketEntry>, PlatformUnavailable>> = vec![];
    assert_eq!(merge_tables(&none), Ok(vec![]));
    let empty_but_read: Vec<Result<Vec<RawSocketEntry>, PlatformUnavailable>> =
        vec![Err(PlatformUnavailable), Ok(vec![])];
    assert_eq!(merge_tables(&empty_but_read), Ok(vec![]));
}

#[test]
fn sockets_are_mapped_to_their_processes() {
    let scans = vec![
        process(100, Some("nginx"), &[1, 2]),
        process(200, None, &[3]),
        process(300, Some("idle"), &[]),
    ];
    let owners = correlate(&scans);
    assert_eq!(owners.len(), 3);
    assert_eq!(owners.get(&1), Some(&ProcessOwner { pid: 100, name: Some("nginx".to_string()) }));
    assert_eq!(owners.get(&2), Some(&ProcessOwner { pid: 100, name: Some("nginx".to_string()) }));
    assert_eq!(owners.get(&3), Some(&ProcessOwner { pid: 200, name: None }));
    assert_eq!(owners.get(&4), None);
}

#[test]
fn failed_process_scan_contributes_nothing() {
    let scans = vec![
        process(100, Some("a"), &[1]),
        Err(PlatformUnavailable),
        process(300, Some("c"), &[3]),
    ];
    let owners = correlate(&scans);
    assert_eq!(owners.len(), 2);
    assert_eq!(owners.get(&1).map(|o| o.pid), Some(100));
    assert_eq!(owners.get(&3).map(|o| o.pid), Some(300));
    assert!(correlate(&vec![Err(PlatformUnavailable)]).is_empty());
    assert!(correlate(&vec![]).is_empty());
}

#[test]
fn shared_socket_goes_to_the_process_scanned_last() {
    let scans = vec![
        process(10, Some("master"), &[7, 8]),
        process(11, Some("worker"), &[7]),
    ];
    let owners = correlate(&scans);
    assert_eq!(owners.get(&7), Some(&ProcessOwner { pid: 11, name: Some("worker".to_string()) }));
    assert_eq!(owners.get(&8), Some(&ProcessOwner { pid: 10, name: Some("master".to_string()) }));
    let twice = vec![process(5, Some("p"), &[9, 9, 9])];
    assert_eq!(correlate(&twice).len(), 1);
}

#[test]
fn record_joins_entry_and_owner() {
    let mut owners = HashMap::new();
    owners.insert(42u64, ProcessOwner { pid: 1234, name: Some("sshd".to_string()) });
    let record = record_for(&tcp("127.0.0.1", 22, TcpState::Listen, 42), &owners);
    assert_eq!(
        record,
        PortInfo {
            protocol: Protocol::Tcp,
            local_addr: "127.0.0.1:22".to_string(),
            remote_addr: "0.0.0.0:0".to_string(),
            state: "LISTEN".to_string(),
            pid: Some(1234),
            process_name: Some("sshd".to_string()),
            port: 22,
            tags: vec![],
            user: None,
        }
    );
}

#[test]
fn entry_without_owner_still_appears() {
    let owners: HashMap<u64, ProcessOwner> = HashMap::new();
    let record = record_for(&tcp("10.1.2.3", 65535, TcpState::Established, 7), &owners);
    assert_eq!(record.local_addr, "10.1.2.3:65535");
    assert_eq!(record.state, "ESTABLISHED");
    assert_eq!(record.pid, None);
    assert_eq!(record.process_name, None);
    assert_eq!(record.port, 65535);
}

#[test]
fn process_without_name_keeps_its_pid() {
    let mut owners = HashMap::new();
    owners.insert(9u64, ProcessOwner { pid: 77, name: None });
    let record = record_for(&udp("0.0.0.0", 68, 0, 9), &owners);
    assert_eq!(record.pid, Some(77));
    assert_eq!(record.process_name, None);
}

#[test]
fn udp_socket_without_peer_has_placeholder() {
    let owners: HashMap<u64, ProcessOwner> = HashMap::new();
    let lone = record_for(&udp("0.0.0.0", 5353, 0, 1), &owners);
    assert_eq!(lone.protocol, Protocol::Udp);
    assert_eq!(lone.state, "UDP");
    assert_eq!(lone.remote_addr, "-");
    let connected = record_for(&udp("0.0.0.0", 5353, 4000, 1), &owners);
    assert_eq!(connected.remote_addr, "10.0.0.9:4000");
    let tcp_zero = record_for(&tcp("0.0.0.0", 80, TcpState::Listen, 1), &owners);
    assert_eq!(tcp_zero.remote_addr, "0.0.0.0:0");
}

#[test]
fn snapshot_keeps_the_order_of_the_entries() {
    let entries = vec![
        tcp("0.0.0.0", 443, TcpState::Listen, 1),
        udp("0.0.0.0", 53, 0, 2),
        tcp("0.0.0.0", 80, TcpState::Listen, 3),
    ];
    let owners = correlate(&vec![process(1, Some("web"), &[1, 3])]);
    let ports = snapshot(&entries, &owners);
    let shown: Vec<(Protocol, &str, Option<i32>)> =
        ports.iter().map(|p| (p.protocol, p.local_addr.as_str(), p.pid)).collect();
    assert_eq!(
        shown,
        vec![
            (Protocol::Tcp, "0.0.0.0:443", Some(1)),
            (Protocol::Udp, "0.0.0.0:53", None),
            (Protocol::Tcp, "0.0.0.0:80", Some(1)),
        ]
    );
}

#[test]
fn snapshot_shows_no_socket_twice() {
    let entries = vec![
        tcp("0.0.0.0", 80, TcpState::Listen, 1),
        tcp("0.0.0.0", 80, TcpState::Established, 2),
        udp("0.0.0.0", 80, 0, 3),
        tcp("0.0.0.0", 80, TcpState::TimeWait, 0),
        udp("0.0.0.0", 80, 9, 4),
        tcp("127.0.0.1", 80, TcpState::Listen, 5),
    ];
    let owners: HashMap<u64, ProcessOwner> = HashMap::new();
    let ports = snapshot(&entries, &owners);
    assert_eq!(ports.len(), 3);
    assert_eq!(ports[0].state, "LISTEN");
    assert_eq!(ports[1].protocol, Protocol::Udp);
    assert_eq!(ports[1].remote_addr, "-");
    assert_eq!(ports[2].local_addr, "127.0.0.1:80");
    for i in 0..ports.len() {
        for j in (i + 1)..ports.len() {
            assert!(
                ports[i].protocol != ports[j].protocol || ports[i].local_addr != ports[j].local_addr
            );
        }
    }
}

#[test]
fn snapshot_of_nothing_is_empty() {
    let owners: HashMap<u64, ProcessOwner> = HashMap::new();
    assert!(snapshot(&vec![], &owners).is_empty());
}

#[test]
fn listed_means_same_protocol_and_local_address() {
    let owners: HashMap<u64, ProcessOwner> = HashMap::new();
    let ports = snapshot(&vec![tcp("0.0.0.0", 80, TcpState::Listen, 1)], &owners);
    assert!(is_listed(&ports, &record_for(&tcp("0.0.0.0", 80, TcpState::Close, 9), &owners)));
    assert!(!is_listed(&ports, &record_for(&udp("0.0.0.0", 80, 0, 1), &owners)));
    assert!(!is_listed(&ports, &record_for(&tcp("0.0.0.0", 81, TcpState::Listen, 1), &owners)));
    assert!(!is_listed(&vec![], &record_for(&tcp("0.0.0.0", 80, TcpState::Listen, 1), &owners)));
}

#[test]
fn list_ports_reads_what_it_can() {
    let tables = vec![
        Ok(vec![tcp("0.0.0.0", 8080, TcpState::Listen, 11)]),
        Err(PlatformUnavailable),
        Ok(vec![udp("0.0.0.0", 68, 0, 12)]),
        Err(PlatformUnavailable),
    ];
    let scans = vec![process(500, Some("app"), &[11]), Err(PlatformUnavailable)];
    let ports = list_ports(&tables, &scans);
    assert_eq!(ports.len(), 2);
    assert_eq!(ports[0].local_addr, "0.0.0.0:8080");
    assert_eq!(ports[0].pid, Some(500));
    assert_eq!(ports[0].process_name, Some("app".to_string()));
    assert_eq!(ports[1].local_addr, "0.0.0.0:68");
    assert_eq!(ports[1].pid, None);
}

#[test]
fn list_ports_is_empty_when_nothing_could_be_read() {
    let tables: Vec<Result<Vec<RawSocketEntry>, PlatformUnavailable>> =
        vec![Err(PlatformUnavailable), Err(PlatformUnavailable)];
    assert!(list_ports(&tables, &vec![]).is_empty());
    assert!(list_ports(&vec![], &vec![process(1, None, &[1])]).is_empty());
}

#[test]
fn port_in_use_looks_at_local_ports() {
    let owners: HashMap<u64, ProcessOwner> = HashMap::new();
    let ports = snapshot(
        &vec![tcp("0.0.0.0", 8080, TcpState::Listen, 1), udp("::", 53, 0, 2)],
        &owners,
    );
    assert!(is_port_in_use(&ports, 8080));
    assert!(is_port_in_use(&ports, 53));
    assert!(!is_port_in_use(&ports, 0));
    assert!(!is_port_in_use(&ports, 8081));
    assert!(!is_port_in_use(&vec![], 8080));
}

#[test]
fn copy_of_a_record_is_equal() {
    let record = PortInfo {
        protocol: Protocol::Udp,
        local_addr: "a:1".to_string(),
        remote_addr: "-".to_string(),
        state: "UDP".to_string(),
        pid: Some(3),
        process_name: Some("p".to_string()),
        port: 1,
        tags: vec!["x".to_string(), "y".to_string()],
        user: Some("root".to_string()),
    };
    assert_eq!(record.clone(), record);
    let entry = udp("h", 2, 3, 4);
    assert_eq!(entry.clone(), entry);
}
