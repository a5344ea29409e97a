//! Decisions of the packet monitor: which captured packets to drop, what
//! goes to the approval socket, and the CPU temperature reading.

use crate::command::{args_around, concat, owned};
use crate::packet_data::{PacketData, PacketModel};
use crate::text::{
    chars_of, contains_chars, contains_seq, lemma_marker_words, lines, split_lines, split_words,
    string_from_chars, words,
};
use vstd::prelude::*;

verus! {

broadcast use vstd::string::group_string_axioms;

/// What the capture loop publishes about a packet.
#[derive(Debug, Clone)]
pub enum Event {
    /// A packet to record and show.
    PacketReceived(PacketData),
    /// A packet whose sender is to be blocked.
    DropPacket(PacketData),
}

/// The mathematical content of an [`Event`].
pub enum EventView {
    PacketReceived(PacketModel),
    DropPacket(PacketModel),
}

impl View for Event {
    type V = EventView;

    open spec fn view(&self) -> EventView {
        match self {
            Event::PacketReceived(d) => EventView::PacketReceived(d@),
            Event::DropPacket(d) => EventView::DropPacket(d@),
        }
    }
}

/// The source address whose packets the capture loop asks to drop.
pub const DROP_SOURCE_IP: &'static str = "192.168.1.10300";

/// The event a decoded packet gives: packets from [`DROP_SOURCE_IP`] are to
/// be dropped, all others recorded.
pub open spec fn event_for(m: PacketModel) -> EventView {
    if m.src_ip == Some(DROP_SOURCE_IP@) {
        EventView::DropPacket(m)
    } else {
        EventView::PacketReceived(m)
    }
}

/// Only packets whose source address is `192.168.1.10300` are to be
/// dropped; every other packet, one with no known source address (ARP and
/// the like) included, is recorded. Either way the event carries the
/// packet unchanged.
pub proof fn law_drop_only_listed_source(m: PacketModel)
    ensures
        (event_for(m) is DropPacket) <==> m.src_ip == Some("192.168.1.10300"@),
        m.src_ip is None ==> event_for(m) == EventView::PacketReceived(m),
        event_for(m) == EventView::DropPacket(m) || event_for(m) == EventView::PacketReceived(m),
{
    assert(DROP_SOURCE_IP@ == "192.168.1.10300"@);
}

/// Decides what to publish about a decoded packet.
pub fn classify_packet(data: PacketData) -> (e: Event)
    ensures
        e@ == event_for(data@),
{
    let drop_ip = owned(DROP_SOURCE_IP);
    let is_drop = match &data.src_ip {
        Some(ip) => *ip == drop_ip,
        None => false,
    };
    if is_drop {
        Event::DropPacket(data)
    } else {
        Event::PacketReceived(data)
    }
}

/// The `iptables` arguments (run through `sudo`) that drop all input from
/// the sender of a packet, when its source IP is known.
pub open spec fn drop_rule_for(m: PacketModel) -> Option<Seq<Seq<char>>> {
    match m.src_ip {
        Some(ip) => Some(seq!["iptables"@, "-I"@, "INPUT"@, "-s"@, ip, "-j"@, "DROP"@]),
        None => None,
    }
}

/// The command that blocks the sender of `packet`; `None` when its source
/// IP is unknown and the firewall is left as it is.
pub fn update_firewall(packet: &PacketData) -> (cmd: Option<Vec<String>>)
    ensures
        cmd.deep_view() == drop_rule_for(packet@),
{
    match &packet.src_ip {
        Some(ip) => {
            let args = args_around(&["iptables", "-I", "INPUT", "-s"], ip.as_str(), &["-j", "DROP"]);
            assert(args.deep_view() =~= seq!["iptables"@, "-I"@, "INPUT"@, "-s"@, ip@, "-j"@, "DROP"@]);
            Some(args)
        },
        None => None,
    }
}

/// The line pair sent to the approval socket for a packet: its source IP
/// and source MAC, each followed by a newline; nothing when either is
/// unknown.
pub open spec fn approval_message_for(m: PacketModel) -> Option<Seq<char>> {
    match (m.src_ip, m.src_mac) {
        (Some(ip), Some(mac)) => Some(ip + "\n"@ + mac + "\n"@),
        _ => None,
    }
}

/// Builds the approval-socket message for a packet.
pub fn approval_message(data: &PacketData) -> (msg: Option<String>)
    ensures
        msg.deep_view() == approval_message_for(data@),
{
    match (&data.src_ip, &data.src_mac) {
        (Some(ip), Some(mac)) => {
            let mut msg = concat(ip.as_str(), "\n");
            msg.append(mac.as_str());
            msg.append("\n");
            Some(msg)
        },
        _ => None,
    }
}

/// The sender of a packet is blocked by inserting, at the head of the
/// INPUT chain, a rule that drops everything from its source address;
/// without a known source address nothing is run. The approval socket is
/// sent the source address and the source MAC, one per line, and nothing
/// when either is unknown.
pub proof fn law_block_and_approval(m: PacketModel)
    ensures
        m.src_ip matches Some(ip) ==> drop_rule_for(m) == Some(
            seq!["iptables"@, "-I"@, "INPUT"@, "-s"@, ip, "-j"@, "DROP"@],
        ),
        m.src_ip is None ==> drop_rule_for(m) is None,
        m.src_ip is Some && m.src_mac is Some ==> approval_message_for(m) == Some(
            m.src_ip->Some_0 + seq!['\n'] + m.src_mac->Some_0 + seq!['\n'],
        ),
        (m.src_ip is None || m.src_mac is None) ==> approval_message_for(m) is None,
{
    assert("\n"@ == seq!['\n']) by {
        reveal_strlit("\n");
    }
}

/// The first line that holds `pat`.
pub open spec fn first_line_with(ls: Seq<Seq<char>>, pat: Seq<char>) -> Option<Seq<char>>
    decreases ls.len(),
{
    if ls.len() == 0 {
        None
    } else if contains_seq(ls[0], pat) {
        Some(ls[0])
    } else {
        first_line_with(ls.drop_first(), pat)
    }
}

/// The label of the CPU temperature in the output of `sensors`.
pub const TEMP_LABEL: &'static str = "temp1:";

/// What the temperature display shows: the last word of the first line of
/// the `sensors` output that holds [`TEMP_LABEL`], or `N/A` when the
/// command failed or no line holds it.
pub open spec fn temperature_text(success: bool, output: Seq<char>) -> Seq<char> {
    if !success {
        "N/A"@
    } else {
        match first_line_with(lines(output), TEMP_LABEL@) {
            Some(line) => words(line).last(),
            None => "N/A"@,
        }
    }
}

/// A sequence of lines whose line `k` is the first to hold `pat` gives
/// that line as the first with `pat`.
proof fn lemma_first_line_at(ls: Seq<Seq<char>>, pat: Seq<char>, k: int)
    requires
        0 <= k < ls.len(),
        contains_seq(ls[k], pat),
        forall|j: int| 0 <= j < k ==> !contains_seq(#[trigger] ls[j], pat),
    ensures
        first_line_with(ls, pat) == Some(ls[k]),
    decreases k,
{
    if k > 0 {
        assert(!contains_seq(ls[0], pat));
        let rest = ls.drop_first();
        assert forall|j: int| 0 <= j < k - 1 implies !contains_seq(#[trigger] rest[j], pat) by {
            assert(rest[j] == ls[j + 1]);
        }
        lemma_first_line_at(rest, pat, k - 1);
    }
}

/// Lines none of which holds `pat` have no first line with it.
proof fn lemma_no_line_with(ls: Seq<Seq<char>>, pat: Seq<char>)
    requires
        forall|j: int| 0 <= j < ls.len() ==> !contains_seq(#[trigger] ls[j], pat),
    ensures
        first_line_with(ls, pat) is None,
    decreases ls.len(),
{
    if ls.len() > 0 {
        assert(!contains_seq(ls[0], pat));
        let rest = ls.drop_first();
        assert forall|j: int| 0 <= j < rest.len() implies !contains_seq(#[trigger] rest[j], pat) by {
            assert(rest[j] == ls[j + 1]);
        }
        lemma_no_line_with(rest, pat);
    }
}

/// The temperature is read from the first line of the whole `sensors`
/// output that holds `temp1:`, whatever comes before it (blank lines and
/// other chips' blocks included): it is that line's last word. Only a
/// failed command, or an output with no such line, shows `N/A`.
pub proof fn law_temperature_from_first_label_line(success: bool, output: Seq<char>)
    ensures
        !success ==> temperature_text(success, output) == "N/A"@,
        success ==> forall|k: int|
            0 <= k < lines(output).len() && contains_seq(#[trigger] lines(output)[k], "temp1:"@)
                && (forall|j: int| 0 <= j < k ==> !contains_seq(#[trigger] lines(output)[j], "temp1:"@))
                ==> temperature_text(success, output) == words(lines(output)[k]).last(),
        success && (forall|j: int|
            0 <= j < lines(output).len() ==> !contains_seq(#[trigger] lines(output)[j], "temp1:"@))
            ==> temperature_text(success, output) == "N/A"@,
{
    let ls = lines(output);
    assert(TEMP_LABEL@ == "temp1:"@);
    assert forall|k: int|
        0 <= k < ls.len() && contains_seq(#[trigger] ls[k], "temp1:"@)
            && (forall|j: int| 0 <= j < k ==> !contains_seq(#[trigger] ls[j], "temp1:"@))
        implies first_line_with(ls, TEMP_LABEL@) == Some(ls[k]) by {
        lemma_first_line_at(ls, TEMP_LABEL@, k);
    }
    if forall|j: int| 0 <= j < ls.len() ==> !contains_seq(#[trigger] ls[j], "temp1:"@) {
        lemma_no_line_with(ls, TEMP_LABEL@);
    }
}

/// Reads the CPU temperature out of what `sensors` printed.
pub fn get_temp(success: bool, output: &str) -> (t: String)
    ensures
        t@ == temperature_text(success, output@),
{
    if !success {
        return owned("N/A");
    }
    let cs = chars_of(output);
    let ls = split_lines(&cs);
    let label = chars_of(TEMP_LABEL);
    let mut i: usize = 0;
    assert(ls.deep_view().skip(0) =~= ls.deep_view());
    while i < ls.len()
        invariant
            success,
            i <= ls@.len(),
            label@ == TEMP_LABEL@,
            ls.deep_view() == lines(output@),
            first_line_with(lines(output@), TEMP_LABEL@) == first_line_with(
                ls.deep_view().skip(i as int),
                TEMP_LABEL@,
            ),
        decreases ls@.len() - i,
    {
        let ghost rest = ls.deep_view().skip(i as int);
        assert(ls.deep_view()[i as int] =~= ls@[i as int]@);
        assert(rest[0] == ls@[i as int]@);
        assert(rest.drop_first() =~= ls.deep_view().skip(i + 1));
        if contains_chars(ls[i].as_slice(), &label) {
            proof {
                reveal_strlit("temp1:");
                lemma_marker_words(ls@[i as int]@, TEMP_LABEL@);
            }
            let ws = split_words(ls[i].as_slice());
            let last = ws.len() - 1;
            assert(ws.deep_view()[last as int] =~= ws@[last as int]@);
            assert(contains_seq(rest[0], TEMP_LABEL@));
            assert(first_line_with(rest, TEMP_LABEL@) == Some(rest[0]));
            assert(words(rest[0]).last() == ws@[last as int]@);
            return string_from_chars(ws[last].as_slice());
        }
        i = i + 1;
    }
    assert(ls.deep_view().skip(i as int) =~= Seq::<Seq<char>>::empty());
    owned("N/A")
}

} // verus!
