use port_manager::filter::{filter_ports, has_tag, PortFilter};
use port_manager::inventory::PortInfo;
use port_manager::socket::Protocol;

fn record(protocol: Protocol, port: u16, state: &str, name: Option<&str>) -> PortInfo {
    PortInfo {
        protocol,
        local_addr: format!("0.0.0.0:{}", port),
        remote_addr: "-".to_string(),
        state: state.to_string(),
        pid: Some(1),
        process_name: name.map(|n| n.to_string()),
        port,
        tags: vec![],
        user: None,
    }
}

fn sample() -> Vec<PortInfo> {
    vec![
        record(Protocol::Tcp, 80, "LISTEN", Some("nginx")),
        record(Protocol::Udp, 1023, "UDP", Some("low")),
        record(Protocol::Udp, 1024, "UDP", Some("edge-low")),
        record(Protocol::Tcp, 1500, "ESTABLISHED", Some("ssh")),
        record(Protocol::Udp, 1500, "UDP", Some("dnsmasq")),
        record(Protocol::Udp, 2048, "UDP", Some("edge-high")),
        record(Protocol::Udp, 2049, "UDP", Some("nfs")),
        record(Protocol::Tcp, 2048, "LISTEN", None),
    ]
}

#[test]
fn udp_ports_in_range_are_selected() {
    let mut filter = PortFilter::new();
    filter.protocol = Some("UDP".to_string());
    filter.port_start = Some(1024);
    filter.port_end = Some(2048);
    let selected = filter_ports(&sample(), &filter);
    let ports: Vec<u16> = selected.iter().map(|p| p.port).collect();
    assert_eq!(ports, vec![1024, 1500, 2048]);
    for p in &selected {
        assert_eq!(p.protocol, Protocol::Udp);
        assert!(1024 <= p.port && p.port <= 2048);
    }
}

#[test]
fn empty_predicate_selects_everything() {
    let filter = PortFilter::new();
    assert_eq!(filter_ports(&sample(), &filter), sample());
    assert!(filter_ports(&vec![], &filter).is_empty());
}

#[test]
fn protocol_is_matched_without_case() {
    let r = record(Protocol::Tcp, 80, "LISTEN", Some("nginx"));
    assert!(r.matches("", Some("tcp"), None, None, None, None));
    assert!(r.matches("", Some("TCP"), None, None, None, None));
    assert!(r.matches("", Some("Tcp"), None, None, None, None));
    assert!(!r.matches("", Some("udp"), None, None, None, None));
    assert!(!r.matches("", Some("tcp6"), None, None, None, None));
    assert!(!r.matches("", Some(""), None, None, None, None));
}

#[test]
fn state_is_matched_exactly_without_case() {
    let r = record(Protocol::Tcp, 80, "LISTEN", Some("nginx"));
    assert!(r.matches("", None, Some("listen"), None, None, None));
    assert!(r.matches("", None, Some("LISTEN"), None, None, None));
    assert!(!r.matches("", None, Some("LIST"), None, None, None));
    assert!(!r.matches("", None, Some("ESTABLISHED"), None, None, None));
}

#[test]
fn port_range_is_inclusive() {
    let r = record(Protocol::Tcp, 1024, "LISTEN", None);
    assert!(r.matches("", None, None, Some((1024, 1024)), None, None));
    assert!(r.matches("", None, None, Some((0, 65535)), None, None));
    assert!(r.matches("", None, None, Some((1000, 1024)), None, None));
    assert!(r.matches("", None, None, Some((1024, 2000)), None, None));
    assert!(!r.matches("", None, None, Some((1025, 2000)), None, None));
    assert!(!r.matches("", None, None, Some((0, 1023)), None, None));
    assert!(!r.matches("", None, None, Some((2000, 1000)), None, None));
}

#[test]
fn half_a_range_is_no_constraint() {
    let mut filter = PortFilter::new();
    filter.port_start = Some(2000);
    assert_eq!(filter.port_range(), None);
    assert_eq!(filter_ports(&sample(), &filter).len(), sample().len());
    filter.port_start = None;
    filter.port_end = Some(100);
    assert_eq!(filter.port_range(), None);
    assert_eq!(filter_ports(&sample(), &filter).len(), sample().len());
    filter.port_start = Some(0);
    assert_eq!(filter.port_range(), Some((0, 100)));
    assert_eq!(filter_ports(&sample(), &filter).len(), 1);
}

#[test]
fn every_requested_tag_must_be_present() {
    let mut r = record(Protocol::Tcp, 80, "LISTEN", None);
    r.tags = vec!["web".to_string(), "prod".to_string()];
    let web = vec!["web".to_string()];
    let both = vec!["prod".to_string(), "web".to_string()];
    let more = vec!["web".to_string(), "db".to_string()];
    let none: Vec<String> = vec![];
    assert!(r.matches("", None, None, None, Some(&web), None));
    assert!(r.matches("", None, None, None, Some(&both), None));
    assert!(!r.matches("", None, None, None, Some(&more), None));
    assert!(r.matches("", None, None, None, Some(&none), None));
    assert!(r.has_tags(&both));
    assert!(!r.has_tags(&more));
    assert!(has_tag(&r.tags, "prod"));
    assert!(!has_tag(&r.tags, "Prod"));
    assert!(!has_tag(&none, "prod"));
    let untagged = record(Protocol::Tcp, 80, "LISTEN", None);
    assert!(!untagged.matches("", None, None, None, Some(&web), None));
    assert!(untagged.matches("", None, None, None, Some(&none), None));
}

#[test]
fn user_is_matched_exactly() {
    let mut r = record(Protocol::Tcp, 80, "LISTEN", None);
    assert!(!r.matches("", None, None, None, None, Some("root")));
    assert!(!r.matches("", None, None, None, None, Some("")));
    r.user = Some("root".to_string());
    assert!(r.matches("", None, None, None, None, Some("root")));
    assert!(!r.matches("", None, None, None, None, Some("Root")));
    assert!(!r.matches("", None, None, None, None, Some("roo")));
    assert!(r.matches("", None, None, None, None, None));
}

#[test]
fn query_is_matched_in_the_process_name_without_case() {
    let r = record(Protocol::Tcp, 80, "LISTEN", Some("Nginx-Worker"));
    assert!(r.matches("", None, None, None, None, None));
    assert!(r.matches("nginx", None, None, None, None, None));
    assert!(r.matches("NGINX", None, None, None, None, None));
    assert!(r.matches("x-w", None, None, None, None, None));
    assert!(!r.matches("apache", None, None, None, None, None));
    assert!(!r.matches("0.0.0.0", None, None, None, None, None));
    assert!(r.matches_name("WORKER"));
    let greek = record(Protocol::Tcp, 80, "LISTEN", Some("ΣΊΣΥΦΟΣ"));
    assert!(greek.matches_name("σίσυφος"));
    let nameless = record(Protocol::Tcp, 80, "LISTEN", None);
    assert!(nameless.matches("", None, None, None, None, None));
    assert!(!nameless.matches("a", None, None, None, None, None));
}

#[test]
fn present_fields_must_all_hold() {
    let r = record(Protocol::Udp, 1500, "UDP", Some("dnsmasq"));
    assert!(r.matches("dns", Some("udp"), Some("udp"), Some((1024, 2048)), None, None));
    assert!(!r.matches("dns", Some("tcp"), Some("udp"), Some((1024, 2048)), None, None));
    assert!(!r.matches("dns", Some("udp"), Some("listen"), Some((1024, 2048)), None, None));
    assert!(!r.matches("dns", Some("udp"), Some("udp"), Some((1501, 2048)), None, None));
    assert!(!r.matches("web", Some("udp"), Some("udp"), Some((1024, 2048)), None, None));
    assert!(!r.matches("dns", Some("udp"), Some("udp"), Some((1024, 2048)), None, Some("u")));
    assert!(r.matches_fields(Some("udp"), Some("udp"), Some((1024, 2048)), None, None));
    assert!(!r.matches_fields(Some("udp"), Some("udp"), Some((1024, 1499)), None, None));
}

#[test]
fn interactive_search_looks_at_every_text_column() {
    let mut r = record(Protocol::Tcp, 8080, "LISTEN", Some("Java"));
    r.remote_addr = "192.168.1.7:443".to_string();
    assert!(r.matches_text("8080"));
    assert!(r.matches_text("0.0.0.0"));
    assert!(r.matches_text("192.168"));
    assert!(r.matches_text("listen"));
    assert!(r.matches_text("LIST"));
    assert!(r.matches_text("java"));
    assert!(r.matches_text("JAVA"));
    assert!(r.matches_text(""));
    assert!(!r.matches_text("python"));
    assert!(!r.matches_text("tcp"));
    let nameless = record(Protocol::Udp, 53, "UDP", None);
    assert!(nameless.matches_text("udp"));
    assert!(!nameless.matches_text("named"));
}

#[test]
fn filter_keeps_the_order_of_the_snapshot() {
    let mut filter = PortFilter::new();
    filter.query = Some("E".to_string());
    let names: Vec<Option<String>> =
        filter_ports(&sample(), &filter).into_iter().map(|p| p.process_name).collect();
    assert_eq!(
        names,
        vec![Some("edge-low".to_string()), Some("edge-high".to_string())]
    );
}

#[test]
fn predicate_accepts_what_matches_accepts() {
    let mut filter = PortFilter::new();
    filter.state = Some("listen".to_string());
    filter.tags = Some(vec![]);
    for r in sample() {
        assert_eq!(
            filter.accepts(&r),
            r.matches("", None, Some("listen"), None, Some(&[]), None)
        );
    }
    filter.user = Some("nobody".to_string());
    assert!(filter_ports(&sample(), &filter).is_empty());
}

#[test]
fn empty_query_matches_a_record_without_name() {
    let nameless = record(Protocol::Tcp, 80, "LISTEN", None);
    assert!(nameless.matches_name(""));
    assert!(!nameless.matches_name("x"));
    let named = record(Protocol::Tcp, 80, "LISTEN", Some("x"));
    assert!(named.matches_name(""));
    assert!(named.matches_name("X"));
}
