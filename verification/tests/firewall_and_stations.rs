use dashmap::DashMap;
use nethound::firewall::{
    allow_ip, block_ip, reload_allowed_ips, setup_global_blocking,
};
use nethound::hostapd::{
    backend_authorized, backend_url, classify_hostapd_message, block_departed_station, ip_of,
    parse_leases, record_connection, record_disconnection, HostapdEvent,
};

fn strs(v: &[&str]) -> Vec<String> {
    v.iter().map(|s| s.to_string()).collect()
}

#[test]
fn global_blocking_rules_in_order() {
    let rules = setup_global_blocking();
    assert_eq!(
        rules,
        vec![
            strs(&["-F"]),
            strs(&["-t", "nat", "-F"]),
            strs(&["-A", "INPUT", "-i", "lo", "-j", "ACCEPT"]),
            strs(&["-A", "FORWARD", "-d", "192.168.1.1", "-j", "ACCEPT"]),
            strs(&["-A", "FORWARD", "-s", "192.168.1.1", "-j", "ACCEPT"]),
            strs(&["-A", "FORWARD", "-i", "wlan0", "-j", "DROP"]),
            strs(&["-t", "nat", "-A", "POSTROUTING", "-o", "eth0", "-j", "MASQUERADE"]),
        ]
    );
}

#[test]
fn allow_then_block() {
    let mut allowed = DashMap::new();
    let rules = allow_ip("192.168.1.50", &mut allowed);
    assert_eq!(
        rules,
        vec![
            strs(&["-I", "FORWARD", "1", "-s", "192.168.1.50", "-j", "ACCEPT"]),
            strs(&["-I", "FORWARD", "1", "-d", "192.168.1.50", "-j", "ACCEPT"]),
        ]
    );
    assert!(allowed.contains_key("192.168.1.50"));
    // A second allow is a no-op.
    assert!(allow_ip("192.168.1.50", &mut allowed).is_empty());
    assert_eq!(allowed.len(), 1);
    let rules = block_ip("192.168.1.50", &mut allowed);
    assert_eq!(
        rules,
        vec![
            strs(&["-D", "FORWARD", "-s", "192.168.1.50", "-j", "ACCEPT"]),
            strs(&["-D", "FORWARD", "-d", "192.168.1.50", "-j", "ACCEPT"]),
        ]
    );
    assert!(allowed.is_empty());
    // Blocking a closed address is a no-op.
    assert!(block_ip("192.168.1.50", &mut allowed).is_empty());
}

#[test]
fn reload_makes_the_set_exact() {
    let mut allowed = DashMap::new();
    allow_ip("10.0.0.1", &mut allowed);
    allow_ip("10.0.0.2", &mut allowed);
    let wanted = strs(&["10.0.0.2", "10.0.0.3", "10.0.0.3"]);
    let rules = reload_allowed_ips(&mut allowed, &wanted);
    let mut keys: Vec<String> = allowed.iter().map(|e| e.key().clone()).collect();
    keys.sort();
    assert_eq!(keys, strs(&["10.0.0.2", "10.0.0.3"]));
    assert_eq!(
        rules,
        vec![
            strs(&["-I", "FORWARD", "1", "-s", "10.0.0.3", "-j", "ACCEPT"]),
            strs(&["-I", "FORWARD", "1", "-d", "10.0.0.3", "-j", "ACCEPT"]),
            strs(&["-D", "FORWARD", "-s", "10.0.0.1", "-j", "ACCEPT"]),
            strs(&["-D", "FORWARD", "-d", "10.0.0.1", "-j", "ACCEPT"]),
        ]
    );
    // Reloading the same list again issues nothing.
    assert!(reload_allowed_ips(&mut allowed, &wanted).is_empty());
}

#[test]
fn hostapd_messages() {
    match classify_hostapd_message("<3>AP-STA-CONNECTED 11:22:33:44:55:66") {
        HostapdEvent::Connected(mac) => assert_eq!(mac, "11:22:33:44:55:66"),
        other => panic!("unexpected {:?}", other),
    }
    match classify_hostapd_message("<3>AP-STA-DISCONNECTED 11:22:33:44:55:66\n") {
        HostapdEvent::Disconnected(mac) => assert_eq!(mac, "11:22:33:44:55:66"),
        other => panic!("unexpected {:?}", other),
    }
    match classify_hostapd_message("<3>CTRL-EVENT-EAP-STARTED x") {
        HostapdEvent::Other(msg) => assert_eq!(msg, "<3>CTRL-EVENT-EAP-STARTED x"),
        other => panic!("unexpected {:?}", other),
    }
}

const LEASES: &str = "1715000000 11:22:33:44:55:66 192.168.1.20 phone 01:11:22:33:44:55:66\n\
bad line\n\
1715000100 aa:aa:aa:aa:aa:aa 192.168.1.21 laptop *\n\
1715000200 11:22:33:44:55:66 192.168.1.22 phone *\n";

#[test]
fn lease_file_later_line_wins() {
    let t = parse_leases(LEASES);
    assert_eq!(t.entries.len(), 3);
    assert_eq!(t.get("11:22:33:44:55:66").as_deref(), Some("192.168.1.22"));
    assert_eq!(t.get("aa:aa:aa:aa:aa:aa").as_deref(), Some("192.168.1.21"));
    assert_eq!(t.get("bb:bb:bb:bb:bb:bb"), None);
}

#[test]
fn station_table_and_firewall() {
    let leases = parse_leases(LEASES);
    let mut table = DashMap::new();
    assert_eq!(
        record_connection(&mut table, &leases, "aa:aa:aa:aa:aa:aa").as_deref(),
        Some("192.168.1.21")
    );
    assert_eq!(record_connection(&mut table, &leases, "cc:cc:cc:cc:cc:cc"), None);
    assert_eq!(ip_of(&table, "aa:aa:aa:aa:aa:aa").as_deref(), Some("192.168.1.21"));

    let mut allowed = DashMap::new();
    allow_ip("192.168.1.21", &mut allowed);
    let rules = block_departed_station(&table, &mut allowed, "aa:aa:aa:aa:aa:aa");
    assert_eq!(rules.len(), 2);
    assert!(allowed.is_empty());

    record_disconnection(&mut table, "aa:aa:aa:aa:aa:aa");
    assert_eq!(ip_of(&table, "aa:aa:aa:aa:aa:aa"), None);
    assert!(block_departed_station(&table, &mut allowed, "aa:aa:aa:aa:aa:aa").is_empty());
}

#[test]
fn backend_query_and_reply() {
    assert_eq!(
        backend_url("192.168.1.21", "aa:aa:aa:aa:aa:aa"),
        "http://localhost/api/userip?mac=aa:aa:aa:aa:aa:aa&ip=192.168.1.21"
    );
    assert!(backend_authorized(r#"{"authorized": true}"#));
    assert!(!backend_authorized(r#"{"authorized": false}"#));
    assert!(!backend_authorized(r#"{"authorized": "yes"}"#));
    assert!(!backend_authorized(r#"{"other": true}"#));
    assert!(!backend_authorized("not json"));
}
