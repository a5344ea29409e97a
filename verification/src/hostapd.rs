//! Client arrivals and departures on the access point: hostapd control
//! messages, the DHCP lease file, and the MAC-to-IP table built from them.

use crate::command::{concat, owned};
use crate::pairs::{lookup_last, pairs_lookup, pairs_view};
use crate::firewall::{allowed_set, block_ip, block_rules, AllowedIps, SERVER_WEB};
use crate::text::{
    chars_of, contains_chars, contains_seq, lemma_marker_words, lines, split_lines, split_words,
    string_from_chars, words,
};
use dashmap::DashMap;
use vstd::prelude::*;

verus! {

broadcast use vstd::string::group_string_axioms;

/// What hostapd reported on its control socket.
#[derive(Debug)]
pub enum HostapdEvent {
    /// A station associated; carries its MAC address.
    Connected(String),
    /// A station left; carries its MAC address.
    Disconnected(String),
    /// Any other message, whole.
    Other(String),
}

/// The mathematical content of a [`HostapdEvent`].
pub enum HostapdEventView {
    Connected(Seq<char>),
    Disconnected(Seq<char>),
    Other(Seq<char>),
}

impl View for HostapdEvent {
    type V = HostapdEventView;

    open spec fn view(&self) -> HostapdEventView {
        match self {
            HostapdEvent::Connected(s) => HostapdEventView::Connected(s@),
            HostapdEvent::Disconnected(s) => HostapdEventView::Disconnected(s@),
            HostapdEvent::Other(s) => HostapdEventView::Other(s@),
        }
    }
}

/// The marker of a station association in a hostapd message.
pub const STA_CONNECTED: &'static str = "AP-STA-CONNECTED";

/// The marker of a station departure in a hostapd message.
pub const STA_DISCONNECTED: &'static str = "AP-STA-DISCONNECTED";

/// How a hostapd message is read: an association or departure marker makes
/// it an event about the station named by the message's last word (the
/// association marker wins when both occur); anything else is passed on.
pub open spec fn hostapd_event(msg: Seq<char>) -> HostapdEventView {
    if contains_seq(msg, STA_CONNECTED@) {
        HostapdEventView::Connected(words(msg).last())
    } else if contains_seq(msg, STA_DISCONNECTED@) {
        HostapdEventView::Disconnected(words(msg).last())
    } else {
        HostapdEventView::Other(msg)
    }
}

/// Reads one hostapd control message.
pub fn classify_hostapd_message(msg: &str) -> (e: HostapdEvent)
    ensures
        e@ == hostapd_event(msg@),
{
    let cs = chars_of(msg);
    let connected = chars_of(STA_CONNECTED);
    let disconnected = chars_of(STA_DISCONNECTED);
    proof {
        reveal_strlit("AP-STA-CONNECTED");
        reveal_strlit("AP-STA-DISCONNECTED");
    }
    if contains_chars(&cs, &connected) {
        proof {
            lemma_marker_words(msg@, STA_CONNECTED@);
        }
        let ws = split_words(&cs);
        let last = ws.len() - 1;
        assert(ws.deep_view()[last as int] =~= ws@[last as int]@);
        HostapdEvent::Connected(string_from_chars(ws[last].as_slice()))
    } else if contains_chars(&cs, &disconnected) {
        proof {
            lemma_marker_words(msg@, STA_DISCONNECTED@);
        }
        let ws = split_words(&cs);
        let last = ws.len() - 1;
        assert(ws.deep_view()[last as int] =~= ws@[last as int]@);
        HostapdEvent::Disconnected(string_from_chars(ws[last].as_slice()))
    } else {
        HostapdEvent::Other(owned(msg))
    }
}

/// One lease line names the station's MAC address in its second word and
/// its IP address in its third (dnsmasq: expiry, MAC, IP, name, client id);
/// lines with fewer than three words hold no lease.
pub open spec fn lease_of_line(line: Seq<char>) -> Option<(Seq<char>, Seq<char>)> {
    let w = words(line);
    if w.len() >= 3 {
        Some((w[1], w[2]))
    } else {
        None
    }
}

/// The leases of a sequence of lines, in order.
pub open spec fn leases_of_lines(ls: Seq<Seq<char>>) -> Seq<(Seq<char>, Seq<char>)>
    decreases ls.len(),
{
    if ls.len() == 0 {
        Seq::empty()
    } else {
        let rest = leases_of_lines(ls.drop_last());
        match lease_of_line(ls.last()) {
            Some(e) => rest.push(e),
            None => rest,
        }
    }
}

/// The (MAC, IP) pairs of a lease file, in file order.
pub open spec fn lease_entries(content: Seq<char>) -> Seq<(Seq<char>, Seq<char>)> {
    leases_of_lines(lines(content))
}

/// The DHCP leases, in file order.
pub struct LeaseTable {
    pub entries: Vec<(String, String)>,
}

impl View for LeaseTable {
    type V = Seq<(Seq<char>, Seq<char>)>;

    open spec fn view(&self) -> Seq<(Seq<char>, Seq<char>)> {
        pairs_view(self.entries@)
    }
}

impl LeaseTable {
    /// The IP leased to `mac`; when the file lists the MAC more than once,
    /// the last line counts.
    pub fn get(&self, mac: &str) -> (r: Option<String>)
        ensures
            r.deep_view() == pairs_lookup(self@, mac@),
    {
        lookup_last(&self.entries, mac)
    }
}

/// Reads the content of a dnsmasq lease file.
pub fn parse_leases(content: &str) -> (t: LeaseTable)
    ensures
        t@ == lease_entries(content@),
{
    let cs = chars_of(content);
    let ls = split_lines(&cs);
    let mut entries: Vec<(String, String)> = Vec::new();
    let mut i: usize = 0;
    while i < ls.len()
        invariant
            i <= ls@.len(),
            ls.deep_view() == lines(content@),
            entries@.map_values(|e: (String, String)| (e.0@, e.1@)) == leases_of_lines(
                ls.deep_view().take(i as int),
            ),
        decreases ls@.len() - i,
    {
        let ghost before = entries@.map_values(|e: (String, String)| (e.0@, e.1@));
        let ghost prefix = ls.deep_view().take(i + 1);
        proof {
            assert(prefix.drop_last() =~= ls.deep_view().take(i as int));
            assert(ls.deep_view()[i as int] =~= ls@[i as int]@);
            assert(prefix.last() == ls@[i as int]@);
        }
        let ws = split_words(ls[i].as_slice());
        proof {
            if ws@.len() >= 3 {
                assert(ws.deep_view()[1] =~= ws@[1]@);
                assert(ws.deep_view()[2] =~= ws@[2]@);
            }
        }
        if ws.len() >= 3 {
            let mac = string_from_chars(ws[1].as_slice());
            let ip = string_from_chars(ws[2].as_slice());
            entries.push((mac, ip));
            assert(entries@.map_values(|e: (String, String)| (e.0@, e.1@)) =~= before.push(
                (ws@[1]@, ws@[2]@),
            ));
        }
        i = i + 1;
    }
    assert(ls.deep_view().take(ls@.len() as int) =~= ls.deep_view());
    LeaseTable { entries }
}

/// Which station (by MAC) holds which IP, as learned from the lease file.
pub type MacIpMap = DashMap<String, String>;

/// The (MAC, IP) pairs held in a [`MacIpMap`].
pub uninterp spec fn mac_ip_pairs(m: DashMap<String, String>) -> Map<Seq<char>, Seq<char>>;

/// Trusted: calls `DashMap::insert`, which maps the key to the value,
/// replacing an earlier value; the returned old value is dropped.
#[verifier::external_body]
fn mac_ip_insert(m: &mut MacIpMap, mac: String, ip: String)
    ensures
        mac_ip_pairs(*final(m)) == mac_ip_pairs(*old(m)).insert(mac@, ip@),
{
    m.insert(mac, ip);
}

/// Trusted: calls `DashMap::remove`, which takes the key out of the map if
/// it is there; the returned entry is dropped.
#[verifier::external_body]
fn mac_ip_remove(m: &mut MacIpMap, mac: &str)
    ensures
        mac_ip_pairs(*final(m)) == mac_ip_pairs(*old(m)).remove(mac@),
{
    m.remove(mac);
}

/// Trusted: calls `DashMap::get`, which finds the entry for the key, and
/// clones its value.
#[verifier::external_body]
fn mac_ip_get(m: &MacIpMap, mac: &str) -> (r: Option<String>)
    ensures
        r.deep_view() == (if mac_ip_pairs(*m).contains_key(mac@) {
            Some(mac_ip_pairs(*m)[mac@])
        } else {
            None
        }),
{
    match m.get(mac) {
        Some(entry) => Some(entry.value().clone()),
        None => None,
    }
}

/// A station associated: when the leases give it an IP, the table learns
/// it. Returns that IP.
pub fn record_connection(mac_ip_map: &mut MacIpMap, leases: &LeaseTable, mac: &str) -> (r: Option<
    String,
>)
    ensures
        r.deep_view() == pairs_lookup(leases@, mac@),
        mac_ip_pairs(*final(mac_ip_map)) == match pairs_lookup(leases@, mac@) {
            Some(ip) => mac_ip_pairs(*old(mac_ip_map)).insert(mac@, ip),
            None => mac_ip_pairs(*old(mac_ip_map)),
        },
{
    match leases.get(mac) {
        Some(ip) => {
            mac_ip_insert(mac_ip_map, owned(mac), ip.clone());
            Some(ip)
        },
        None => None,
    }
}

/// A station left: the table forgets it.
pub fn record_disconnection(mac_ip_map: &mut MacIpMap, mac: &str)
    ensures
        mac_ip_pairs(*final(mac_ip_map)) == mac_ip_pairs(*old(mac_ip_map)).remove(mac@),
{
    mac_ip_remove(mac_ip_map, mac);
}

/// A station that associated and then left is forgotten: the table ends
/// with no IP for it, and what it holds for other stations is as before.
pub proof fn law_departure_forgets(
    table: Map<Seq<char>, Seq<char>>,
    mac: Seq<char>,
    ip: Seq<char>,
    other: Seq<char>,
)
    requires
        other != mac,
    ensures
        !table.insert(mac, ip).remove(mac).contains_key(mac),
        table.insert(mac, ip).remove(mac).contains_key(other) == table.contains_key(other),
        table.contains_key(other) ==> table.insert(mac, ip).remove(mac)[other] == table[other],
{
}

/// The IP the table holds for `mac`.
pub fn ip_of(mac_ip_map: &MacIpMap, mac: &str) -> (r: Option<String>)
    ensures
        r.deep_view() == (if mac_ip_pairs(*mac_ip_map).contains_key(mac@) {
            Some(mac_ip_pairs(*mac_ip_map)[mac@])
        } else {
            None
        }),
{
    mac_ip_get(mac_ip_map, mac)
}

/// A departed station loses its passage: when the table knows its IP, that
/// IP is blocked (see [`block_ip`]); otherwise nothing happens.
pub fn block_departed_station(mac_ip_map: &MacIpMap, allowed_ips: &mut AllowedIps, mac: &str) -> (rules:
    Vec<Vec<String>>)
    ensures
        mac_ip_pairs(*mac_ip_map).contains_key(mac@) ==> {
            let ip = mac_ip_pairs(*mac_ip_map)[mac@];
            &&& allowed_set(*final(allowed_ips)) == allowed_set(*old(allowed_ips)).remove(ip)
            &&& rules.deep_view() == if allowed_set(*old(allowed_ips)).contains(ip) {
                block_rules(ip)
            } else {
                Seq::empty()
            }
        },
        !mac_ip_pairs(*mac_ip_map).contains_key(mac@) ==> {
            &&& allowed_set(*final(allowed_ips)) == allowed_set(*old(allowed_ips))
            &&& rules.deep_view() == Seq::<Seq<Seq<char>>>::empty()
        },
{
    match ip_of(mac_ip_map, mac) {
        Some(ip) => block_ip(ip.as_str(), allowed_ips),
        None => {
            let rules: Vec<Vec<String>> = Vec::new();
            assert(rules.deep_view() =~= Seq::empty());
            rules
        },
    }
}

/// The URL at which the web API says whether a station may pass.
pub open spec fn backend_url_text(ip: Seq<char>, mac: Seq<char>) -> Seq<char> {
    SERVER_WEB@ + "/userip?mac="@ + mac + "&ip="@ + ip
}

/// Builds the authorization query for a station.
pub fn backend_url(ip: &str, mac: &str) -> (url: String)
    ensures
        url@ == backend_url_text(ip@, mac@),
{
    let mut url = concat(SERVER_WEB, "/userip?mac=");
    url.append(mac);
    url.append("&ip=");
    url.append(ip);
    url
}

/// The boolean that the JSON text `body` holds under the top-level key
/// `key`, as serde_json reads it (`None` when the text is no JSON, is no
/// object, lacks the key, or holds no boolean there).
pub uninterp spec fn json_bool_field(body: Seq<char>, key: Seq<char>) -> Option<bool>;

/// Trusted: calls `serde_json::from_str::<Value>`, then `Value::get` and
/// `Value::as_bool`. The result depends on the two texts alone; what it is
/// for a given text is not stated.
#[verifier::external_body]
fn read_json_bool(body: &str, key: &str) -> (r: Option<bool>)
    ensures
        r == json_bool_field(body@, key@),
{
    match serde_json::from_str::<serde_json::Value>(body) {
        Ok(v) => match v.get(key) {
            Some(field) => field.as_bool(),
            None => None,
        },
        Err(_) => None,
    }
}

/// The web API's verdict from the `authorized` field of its reply: a
/// missing or non-boolean field counts as a refusal.
pub fn authorization_verdict(field: Option<bool>) -> (ok: bool)
    ensures
        ok == (field == Some(true)),
{
    match field {
        Some(b) => b,
        None => false,
    }
}

/// Whether the web API's reply authorizes the station.
pub fn backend_authorized(body: &str) -> (ok: bool)
    ensures
        ok == (json_bool_field(body@, "authorized"@) == Some(true)),
{
    authorization_verdict(read_json_bool(body, "authorized"))
}

} // verus!
