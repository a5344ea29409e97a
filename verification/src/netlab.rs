//! NetLab: the shell commands that turn the appliance into a bridge or an
//! isolated access point, and those that restore the saved firewall.

use crate::command::{concat, owned};
use vstd::prelude::*;

verus! {

broadcast use vstd::string::group_string_axioms;

/// `a`, then `x`, then `b`.
fn around(a: &str, x: &str, b: &str) -> (r: String)
    ensures
        r@ == a@ + x@ + b@,
{
    let mut r = owned(a);
    r.append(x);
    r.append(b);
    r
}

/// `a`, then `x`, then `b`, then `y`, then `c`.
fn around2(a: &str, x: &str, b: &str, y: &str, c: &str) -> (r: String)
    ensures
        r@ == a@ + x@ + b@ + y@ + c@,
{
    let mut r = around(a, x, b);
    r.append(y);
    r.append(c);
    r
}

/// Commands that open forwarding and wipe the firewall; both modes start
/// with them.
pub open spec fn reset_commands() -> Seq<Seq<char>> {
    seq![
        "sysctl -w net.ipv4.ip_forward=1"@,
        "iptables -t nat -F"@,
        "iptables -F"@,
        "iptables -X"@,
    ]
}

/// The NAT and forwarding rules between the WiFi interface `w` and the
/// wired interface `l`.
pub open spec fn forward_commands(w: Seq<char>, l: Seq<char>) -> Seq<Seq<char>> {
    seq![
        "iptables -t nat -A POSTROUTING -o "@ + l + " -j MASQUERADE"@,
        "iptables -A FORWARD -i "@ + w + " -o "@ + l + " -j ACCEPT"@,
        "iptables -A FORWARD -i "@ + l + " -o "@ + w
            + " -m state --state RELATED,ESTABLISHED -j ACCEPT"@,
    ]
}

/// Bridge mode: both interfaces join the bridge `br0`, which takes the
/// lab address and forwards between them.
pub open spec fn bridge_mode_commands(w: Seq<char>, l: Seq<char>) -> Seq<Seq<char>> {
    reset_commands() + seq![
        "ip link add name br0 type bridge || true"@,
        "systemctl stop dnsmasq"@,
        "ip link set "@ + w + " master br0"@,
        "ip link set "@ + l + " master br0"@,
        "ip addr flush dev br0"@,
        "ip addr add 192.168.0.14/24 dev br0"@,
        "ip link set br0 up"@,
    ] + forward_commands(w, l)
}

/// Isolated mode: the WiFi interface gets its own network, forwarded to the
/// wired side, and its clients cannot reach each other.
pub open spec fn isolated_mode_commands(w: Seq<char>, l: Seq<char>) -> Seq<Seq<char>> {
    reset_commands() + seq![
        "ip addr flush dev "@ + w,
        "ip addr add 192.168.10.1/24 dev "@ + w,
        "ip link set "@ + w + " up"@,
    ] + forward_commands(w, l) + seq!["iptables -A FORWARD -i "@ + w + " -o "@ + w + " -j DROP"@]
}

/// The commands of a NetLab mode: 1 is bridge mode, 2 isolated mode; any
/// other number is no mode.
pub open spec fn mode_commands(mode: i16, w: Seq<char>, l: Seq<char>) -> Option<Seq<Seq<char>>> {
    if mode == 1 {
        Some(bridge_mode_commands(w, l))
    } else if mode == 2 {
        Some(isolated_mode_commands(w, l))
    } else {
        None
    }
}

/// What each NetLab mode runs, command by command. Both modes first open
/// forwarding and wipe the firewall, and in both the NAT rule masquerades
/// out of the wired interface `l`, new traffic is forwarded from the WiFi
/// side `w` to the wired side, and only related or established traffic
/// comes back. Bridge mode puts both interfaces in the bridge `br0` at
/// 192.168.0.14/24; isolated mode gives `w` the network 192.168.10.1/24 and
/// drops traffic between its own clients. No other mode number runs
/// anything.
pub proof fn law_mode_commands(mode: i16, w: Seq<char>, l: Seq<char>)
    ensures
        mode == 1 ==> mode_commands(mode, w, l) == Some(
            seq![
                "sysctl -w net.ipv4.ip_forward=1"@,
                "iptables -t nat -F"@,
                "iptables -F"@,
                "iptables -X"@,
                "ip link add name br0 type bridge || true"@,
                "systemctl stop dnsmasq"@,
                "ip link set "@ + w + " master br0"@,
                "ip link set "@ + l + " master br0"@,
                "ip addr flush dev br0"@,
                "ip addr add 192.168.0.14/24 dev br0"@,
                "ip link set br0 up"@,
                "iptables -t nat -A POSTROUTING -o "@ + l + " -j MASQUERADE"@,
                "iptables -A FORWARD -i "@ + w + " -o "@ + l + " -j ACCEPT"@,
                "iptables -A FORWARD -i "@ + l + " -o "@ + w
                    + " -m state --state RELATED,ESTABLISHED -j ACCEPT"@,
            ],
        ),
        mode == 2 ==> mode_commands(mode, w, l) == Some(
            seq![
                "sysctl -w net.ipv4.ip_forward=1"@,
                "iptables -t nat -F"@,
                "iptables -F"@,
                "iptables -X"@,
                "ip addr flush dev "@ + w,
                "ip addr add 192.168.10.1/24 dev "@ + w,
                "ip link set "@ + w + " up"@,
                "iptables -t nat -A POSTROUTING -o "@ + l + " -j MASQUERADE"@,
                "iptables -A FORWARD -i "@ + w + " -o "@ + l + " -j ACCEPT"@,
                "iptables -A FORWARD -i "@ + l + " -o "@ + w
                    + " -m state --state RELATED,ESTABLISHED -j ACCEPT"@,
                "iptables -A FORWARD -i "@ + w + " -o "@ + w + " -j DROP"@,
            ],
        ),
        mode != 1 && mode != 2 ==> mode_commands(mode, w, l) is None,
{
    assert(bridge_mode_commands(w, l) =~= seq![
        "sysctl -w net.ipv4.ip_forward=1"@,
        "iptables -t nat -F"@,
        "iptables -F"@,
        "iptables -X"@,
        "ip link add name br0 type bridge || true"@,
        "systemctl stop dnsmasq"@,
        "ip link set "@ + w + " master br0"@,
        "ip link set "@ + l + " master br0"@,
        "ip addr flush dev br0"@,
        "ip addr add 192.168.0.14/24 dev br0"@,
        "ip link set br0 up"@,
        "iptables -t nat -A POSTROUTING -o "@ + l + " -j MASQUERADE"@,
        "iptables -A FORWARD -i "@ + w + " -o "@ + l + " -j ACCEPT"@,
        "iptables -A FORWARD -i "@ + l + " -o "@ + w
            + " -m state --state RELATED,ESTABLISHED -j ACCEPT"@,
    ]);
    assert(isolated_mode_commands(w, l) =~= seq![
        "sysctl -w net.ipv4.ip_forward=1"@,
        "iptables -t nat -F"@,
        "iptables -F"@,
        "iptables -X"@,
        "ip addr flush dev "@ + w,
        "ip addr add 192.168.10.1/24 dev "@ + w,
        "ip link set "@ + w + " up"@,
        "iptables -t nat -A POSTROUTING -o "@ + l + " -j MASQUERADE"@,
        "iptables -A FORWARD -i "@ + w + " -o "@ + l + " -j ACCEPT"@,
        "iptables -A FORWARD -i "@ + l + " -o "@ + w
            + " -m state --state RELATED,ESTABLISHED -j ACCEPT"@,
        "iptables -A FORWARD -i "@ + w + " -o "@ + w + " -j DROP"@,
    ]);
}

fn push_reset_commands(cmds: &mut Vec<String>)
    ensures
        final(cmds).deep_view() == old(cmds).deep_view() + reset_commands(),
{
    let ghost before = cmds.deep_view();
    cmds.push(owned("sysctl -w net.ipv4.ip_forward=1"));
    cmds.push(owned("iptables -t nat -F"));
    cmds.push(owned("iptables -F"));
    cmds.push(owned("iptables -X"));
    assert(cmds.deep_view() =~= before + reset_commands());
}

fn push_forward_commands(cmds: &mut Vec<String>, w: &str, l: &str)
    ensures
        final(cmds).deep_view() == old(cmds).deep_view() + forward_commands(w@, l@),
{
    let ghost before = cmds.deep_view();
    cmds.push(around("iptables -t nat -A POSTROUTING -o ", l, " -j MASQUERADE"));
    cmds.push(around2("iptables -A FORWARD -i ", w, " -o ", l, " -j ACCEPT"));
    cmds.push(
        around2(
            "iptables -A FORWARD -i ",
            l,
            " -o ",
            w,
            " -m state --state RELATED,ESTABLISHED -j ACCEPT",
        ),
    );
    assert(cmds.deep_view() =~= before + forward_commands(w@, l@));
}

/// The shell commands (each run with `sh -c`) that put the appliance in
/// NetLab mode `mode`, with `interface_w` the WiFi and `interface_l` the
/// wired interface; `None` for an unknown mode. The list is in running
/// order: each command is meant to start once the one before it has ended,
/// so that the flushes come before the rules that follow them.
pub fn switch_mode(mode: i16, interface_w: &str, interface_l: &str) -> (cmds: Option<Vec<String>>)
    ensures
        cmds.deep_view() == mode_commands(mode, interface_w@, interface_l@),
{
    let w = interface_w;
    let l = interface_l;
    if mode == 1 {
        let mut cmds: Vec<String> = Vec::new();
        push_reset_commands(&mut cmds);
        let ghost mid = cmds.deep_view();
        cmds.push(owned("ip link add name br0 type bridge || true"));
        cmds.push(owned("systemctl stop dnsmasq"));
        cmds.push(around("ip link set ", w, " master br0"));
        cmds.push(around("ip link set ", l, " master br0"));
        cmds.push(owned("ip addr flush dev br0"));
        cmds.push(owned("ip addr add 192.168.0.14/24 dev br0"));
        cmds.push(owned("ip link set br0 up"));
        push_forward_commands(&mut cmds, w, l);
        assert(cmds.deep_view() =~= bridge_mode_commands(w@, l@));
        Some(cmds)
    } else if mode == 2 {
        let mut cmds: Vec<String> = Vec::new();
        push_reset_commands(&mut cmds);
        cmds.push(concat("ip addr flush dev ", w));
        cmds.push(concat("ip addr add 192.168.10.1/24 dev ", w));
        cmds.push(around("ip link set ", w, " up"));
        let ghost head = cmds.deep_view();
        assert(head =~= reset_commands() + seq![
            "ip addr flush dev "@ + w@,
            "ip addr add 192.168.10.1/24 dev "@ + w@,
            "ip link set "@ + w@ + " up"@,
        ]);
        push_forward_commands(&mut cmds, w, l);
        let ghost body = cmds.deep_view();
        cmds.push(around2("iptables -A FORWARD -i ", w, " -o ", w, " -j DROP"));
        assert(cmds.deep_view() =~= body + seq!["iptables -A FORWARD -i "@ + w@ + " -o "@ + w@ + " -j DROP"@]);
        assert(cmds.deep_view() =~= isolated_mode_commands(w@, l@));
        Some(cmds)
    } else {
        None
    }
}

/// The commands (each run with `sh -c`) that reload the saved IPv4 and IPv6
/// firewall rules.
pub open spec fn restore_commands() -> Seq<Seq<char>> {
    seq![
        "iptables-restore < /etc/iptables/rules.v4"@,
        "ip6tables-restore < /etc/iptables/rules.v6"@,
    ]
}

/// The commands that restore the saved firewall.
pub fn restore_firewall() -> (cmds: Vec<String>)
    ensures
        cmds.deep_view() == restore_commands(),
{
    let mut cmds: Vec<String> = Vec::new();
    cmds.push(owned("iptables-restore < /etc/iptables/rules.v4"));
    cmds.push(owned("ip6tables-restore < /etc/iptables/rules.v6"));
    assert(cmds.deep_view() =~= restore_commands());
    cmds
}

} // verus!
