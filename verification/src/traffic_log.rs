//! Per-packet traffic summaries and the daily traffic database they go to.

use crate::command::{concat, owned};
use crate::packet_data::{law_layers_nest, packet_model, PacketData, PacketModel};
use vstd::prelude::*;

verus! {

broadcast use vstd::string::group_string_axioms;

/// One packet's contribution to the traffic summary table.
#[derive(Debug, Clone)]
pub struct PacketLog {
    pub timestamp: String,
    pub src_ip: String,
    pub dst_ip: String,
    pub src_mac: String,
    pub dst_mac: String,
    pub protocol: String,
    pub bytes: usize,
    pub count: usize,
}

/// The mathematical content of a [`PacketLog`].
pub struct PacketLogView {
    pub timestamp: Seq<char>,
    pub src_ip: Seq<char>,
    pub dst_ip: Seq<char>,
    pub src_mac: Seq<char>,
    pub dst_mac: Seq<char>,
    pub protocol: Seq<char>,
    pub bytes: usize,
    pub count: usize,
}

impl View for PacketLog {
    type V = PacketLogView;

    open spec fn view(&self) -> PacketLogView {
        PacketLogView {
            timestamp: self.timestamp@,
            src_ip: self.src_ip@,
            dst_ip: self.dst_ip@,
            src_mac: self.src_mac@,
            dst_mac: self.dst_mac@,
            protocol: self.protocol@,
            bytes: self.bytes,
            count: self.count,
        }
    }
}

/// A known text field, or `None` written out.
pub open spec fn or_none_text(o: Option<Seq<char>>) -> Seq<char> {
    match o {
        Some(s) => s,
        None => "None"@,
    }
}

/// The transport protocol a summary is filed under.
pub open spec fn protocol_name(m: PacketModel) -> Seq<char> {
    if m.tcp_src_port is Some {
        "TCP"@
    } else if m.udp_src_port is Some {
        "UDP"@
    } else {
        "Other"@
    }
}

/// The summary of one decoded packet seen at `timestamp`: its addresses
/// (`None` where unknown), its protocol, its size in bytes, and a count of
/// one.
pub open spec fn summary_of(m: PacketModel, timestamp: Seq<char>) -> PacketLogView {
    PacketLogView {
        timestamp,
        src_ip: or_none_text(m.src_ip),
        dst_ip: or_none_text(m.dst_ip),
        src_mac: or_none_text(m.src_mac),
        dst_mac: or_none_text(m.dst_mac),
        protocol: protocol_name(m),
        bytes: m.raw.len() as usize,
        count: 1,
    }
}

/// A summary counts one packet of the size of the whole captured frame,
/// whatever its protocol (a UDP length field or a TCP header changes
/// nothing); it is stamped with the time it was given and filed as TCP
/// when the packet has TCP fields, else as UDP when it has UDP fields,
/// else as other. Unknown addresses read `None`.
pub proof fn law_summary_counts_whole_frame(frame: Seq<u8>, m: PacketModel, timestamp: Seq<char>)
    requires
        m.raw.len() <= usize::MAX,
        frame.len() <= usize::MAX,
    ensures
        summary_of(m, timestamp).bytes as int == m.raw.len(),
        summary_of(packet_model(frame), timestamp).bytes as int == frame.len(),
        summary_of(m, timestamp).count == 1,
        summary_of(m, timestamp).timestamp == timestamp,
        m.tcp_src_port is Some ==> summary_of(m, timestamp).protocol == "TCP"@,
        m.tcp_src_port is None && m.udp_src_port is Some ==> summary_of(m, timestamp).protocol
            == "UDP"@,
        m.tcp_src_port is None && m.udp_src_port is None ==> summary_of(m, timestamp).protocol
            == "Other"@,
        m.src_ip is None ==> summary_of(m, timestamp).src_ip == "None"@,
        m.src_ip matches Some(ip) ==> summary_of(m, timestamp).src_ip == ip,
        m.dst_ip is None ==> summary_of(m, timestamp).dst_ip == "None"@,
        m.dst_ip matches Some(ip) ==> summary_of(m, timestamp).dst_ip == ip,
        m.src_mac is None ==> summary_of(m, timestamp).src_mac == "None"@,
        m.src_mac matches Some(mac) ==> summary_of(m, timestamp).src_mac == mac,
        m.dst_mac is None ==> summary_of(m, timestamp).dst_mac == "None"@,
        m.dst_mac matches Some(mac) ==> summary_of(m, timestamp).dst_mac == mac,
{
    law_layers_nest(frame);
}

fn text_or_none(o: &Option<String>) -> (s: String)
    ensures
        s@ == or_none_text(o.deep_view()),
{
    match o {
        Some(s) => s.clone(),
        None => owned("None"),
    }
}

/// Summarizes a decoded packet seen at `timestamp`.
pub fn packet_summary(packet: &PacketData, timestamp: String) -> (log: PacketLog)
    ensures
        log@ == summary_of(packet@, timestamp@),
{
    let protocol = if packet.tcp_src_port.is_some() {
        owned("TCP")
    } else if packet.udp_src_port.is_some() {
        owned("UDP")
    } else {
        owned("Other")
    };
    PacketLog {
        timestamp,
        src_ip: text_or_none(&packet.src_ip),
        dst_ip: text_or_none(&packet.dst_ip),
        src_mac: text_or_none(&packet.src_mac),
        dst_mac: text_or_none(&packet.dst_mac),
        protocol,
        bytes: packet._raw_data.len(),
        count: 1,
    }
}

/// A decimal digit.
pub open spec fn is_digit_char(c: char) -> bool {
    48 <= c as u32 <= 57
}

/// The value of the two decimal digits at `i` and `i + 1`.
pub open spec fn two_digits(s: Seq<char>, i: int) -> int {
    (s[i] as u32 - 48) * 10 + (s[i + 1] as u32 - 48)
}

/// A year as chrono writes it: four digits for years 0 to 9999, otherwise
/// a sign followed by at least four digits.
pub open spec fn is_year_text(y: Seq<char>) -> bool {
    ||| y.len() == 4 && (forall|i: int| 0 <= i < 4 ==> is_digit_char(#[trigger] y[i]))
    ||| y.len() >= 5 && (y[0] == '+' || y[0] == '-') && (forall|i: int|
        1 <= i < y.len() ==> is_digit_char(#[trigger] y[i]))
}

/// A calendar date in `%Y-%m-%d` form: a year, then `-`, a two-digit month
/// from 01 to 12, `-`, and a two-digit day from 01 to 31.
pub open spec fn is_utc_date_text(d: Seq<char>) -> bool {
    let n = d.len() as int;
    &&& n >= 10
    &&& is_year_text(d.subrange(0, n - 6))
    &&& d[n - 6] == '-'
    &&& d[n - 3] == '-'
    &&& is_digit_char(d[n - 5]) && is_digit_char(d[n - 4])
    &&& is_digit_char(d[n - 2]) && is_digit_char(d[n - 1])
    &&& 1 <= two_digits(d, n - 5) <= 12
    &&& 1 <= two_digits(d, n - 2) <= 31
}

/// A time of day `HH:MM:SS` (the seconds reach 60 on a leap second).
pub open spec fn is_clock_text(c: Seq<char>) -> bool {
    &&& c.len() == 8
    &&& c[2] == ':' && c[5] == ':'
    &&& is_digit_char(c[0]) && is_digit_char(c[1]) && is_digit_char(c[3])
    &&& is_digit_char(c[4]) && is_digit_char(c[6]) && is_digit_char(c[7])
    &&& two_digits(c, 0) <= 23 && two_digits(c, 3) <= 59 && two_digits(c, 6) <= 60
}

/// The fraction of a second: nothing, or `.` and three, six or nine digits.
pub open spec fn is_fraction_text(f: Seq<char>) -> bool {
    ||| f.len() == 0
    ||| (f.len() == 4 || f.len() == 7 || f.len() == 10) && f[0] == '.' && (forall|i: int|
        1 <= i < f.len() ==> is_digit_char(#[trigger] f[i]))
}

/// An RFC 3339 time stamp in UTC as chrono writes it: date, `T`, time of
/// day, fraction of a second, and the offset `+00:00`.
pub open spec fn is_rfc3339_utc_text(t: Seq<char>) -> bool {
    exists|date: Seq<char>, clock: Seq<char>, frac: Seq<char>|
        {
            &&& is_utc_date_text(date)
            &&& is_clock_text(clock)
            &&& is_fraction_text(frac)
            &&& t == date + seq!['T'] + clock + frac + "+00:00"@
        }
}

/// The current time in RFC 3339 form.
///
/// Trusted: calls `chrono::Utc::now` and `DateTime::to_rfc3339`, which
/// writes the date (four-digit year for years 0 to 9999, else signed), `T`,
/// the time of day, the fraction of a second in 0, 3, 6 or 9 digits, and
/// the offset, `+00:00` for UTC. The value depends on the clock; only its
/// shape is claimed.
#[verifier::external_body]
fn now_rfc3339() -> (t: String)
    ensures
        is_rfc3339_utc_text(t@),
{
    chrono::Utc::now().to_rfc3339()
}

/// Today's date in UTC, `YYYY-MM-DD`.
///
/// Trusted: calls `chrono::Utc::now` and formats it with `%Y-%m-%d`: the
/// year (four digits for years 0 to 9999, else signed), the month and the
/// day of the month, each as two digits. The value depends on the clock;
/// only its shape is claimed.
#[verifier::external_body]
fn today_utc() -> (d: String)
    ensures
        is_utc_date_text(d@),
{
    chrono::Utc::now().format("%Y-%m-%d").to_string()
}

/// Summarizes a decoded packet seen now. Every field but the time stamp is
/// fixed by the packet; the time stamp is the clock's, in RFC 3339 form.
pub fn save_packet_summary(packet: &PacketData) -> (log: PacketLog)
    ensures
        exists|ts: Seq<char>| is_rfc3339_utc_text(ts) && log@ == summary_of(packet@, ts),
{
    let ts = now_rfc3339();
    packet_summary(packet, ts)
}

/// The directory that holds the daily traffic databases.
pub const TRAFFIC_DB_DIR: &'static str = "/var/lib/nethound";

/// The path of the traffic database of the day `day`.
pub open spec fn traffic_db_path_text(day: Seq<char>) -> Seq<char> {
    TRAFFIC_DB_DIR@ + "/traffic_"@ + day + ".db"@
}

/// The path of the traffic database of the day `day` (`YYYY-MM-DD`).
pub fn traffic_db_path(day: &str) -> (path: String)
    ensures
        path@ == traffic_db_path_text(day@),
{
    let mut path = concat(TRAFFIC_DB_DIR, "/traffic_");
    path.append(day);
    path.append(".db");
    path
}

/// The path of today's traffic database (the day in UTC, as the clock
/// gives it).
pub fn get_db_path() -> (path: String)
    ensures
        exists|day: Seq<char>| is_utc_date_text(day) && path@ == traffic_db_path_text(day),
{
    let day = today_utc();
    traffic_db_path(day.as_str())
}

} // verus!
