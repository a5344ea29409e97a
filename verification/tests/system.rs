use nethound::monitor::get_temp;
use nethound::netlab::{restore_firewall, switch_mode};
use nethound::services::{led_pins, service_plan, ServiceStep};

#[test]
fn temperature_from_sensors_output() {
    let out = "cpu_thermal-virtual-0\nAdapter: Virtual device\ntemp1:        +45.2°C  \n\nrp1_adc-isa-0\ntemp1:  +50.0°C\n";
    assert_eq!(get_temp(true, out), "+45.2°C");
    assert_eq!(get_temp(true, "nothing here\n"), "N/A");
    assert_eq!(get_temp(false, out), "N/A");
}

#[test]
fn bridge_mode_commands() {
    let cmds = switch_mode(1, "wlan0", "eth0").unwrap();
    assert_eq!(cmds.len(), 14);
    assert_eq!(cmds[0], "sysctl -w net.ipv4.ip_forward=1");
    assert_eq!(cmds[6], "ip link set wlan0 master br0");
    assert_eq!(cmds[7], "ip link set eth0 master br0");
    assert_eq!(cmds[11], "iptables -t nat -A POSTROUTING -o eth0 -j MASQUERADE");
    assert_eq!(cmds[12], "iptables -A FORWARD -i wlan0 -o eth0 -j ACCEPT");
    assert_eq!(
        cmds[13],
        "iptables -A FORWARD -i eth0 -o wlan0 -m state --state RELATED,ESTABLISHED -j ACCEPT"
    );
}

#[test]
fn isolated_mode_commands() {
    let cmds = switch_mode(2, "wlan0", "eth0").unwrap();
    assert_eq!(cmds.len(), 11);
    assert_eq!(cmds[4], "ip addr flush dev wlan0");
    assert_eq!(cmds[5], "ip addr add 192.168.10.1/24 dev wlan0");
    assert_eq!(cmds[6], "ip link set wlan0 up");
    assert_eq!(cmds[10], "iptables -A FORWARD -i wlan0 -o wlan0 -j DROP");
}

#[test]
fn unknown_mode_has_no_commands() {
    assert!(switch_mode(0, "wlan0", "eth0").is_none());
    assert!(switch_mode(3, "wlan0", "eth0").is_none());
}

#[test]
fn restore_commands() {
    assert_eq!(
        restore_firewall(),
        vec![
            "iptables-restore < /etc/iptables/rules.v4".to_string(),
            "ip6tables-restore < /etc/iptables/rules.v6".to_string(),
        ]
    );
}

#[test]
fn start_up_sequence() {
    let plan = service_plan();
    assert_eq!(plan.len(), 10);
    assert_eq!(led_pins(&plan), vec![17, 22, 23, 27]);
    match &plan[0] {
        ServiceStep::Run { program, args } => {
            assert_eq!(program, "rfkill");
            assert_eq!(args, &vec!["unblock".to_string(), "wifi".to_string()]);
        }
        other => panic!("unexpected {:?}", other),
    }
    assert!(matches!(plan[6], ServiceStep::Pause { seconds: 3 }));
}
