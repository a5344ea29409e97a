//! The gateway firewall: which client IPs may pass, and the `iptables`
//! rules that let them through or stop them.

use crate::command::{args_around, owned, owned_all};
use dashmap::DashMap;
use vstd::prelude::*;

verus! {

broadcast use vstd::string::group_string_axioms;

/// The concurrent map of the `dashmap` crate, carried as an opaque value.
#[verifier::external_type_specification]
#[verifier::external_body]
#[verifier::reject_recursive_types(K)]
#[verifier::reject_recursive_types(V)]
#[verifier::reject_recursive_types(S)]
pub struct ExDashMap<K, V, S>(DashMap<K, V, S>);

/// The client IPs whose traffic the gateway forwards, keyed by their text.
pub type AllowedIps = DashMap<String, ()>;

/// The IP addresses (as text) held in an [`AllowedIps`] map. The library
/// changes a map only through `&mut` access, so what its contracts say of
/// the contents holds as long as no other handle changes the map.
pub uninterp spec fn allowed_set(m: DashMap<String, ()>) -> Set<Seq<char>>;

/// Trusted: calls `DashMap::contains_key`, which tells whether the key is
/// in the map (keys compared by `String` equality, that is, by text).
#[verifier::external_body]
fn allowed_contains(m: &AllowedIps, ip: &str) -> (b: bool)
    ensures
        b == allowed_set(*m).contains(ip@),
{
    m.contains_key(ip)
}

/// Trusted: calls `DashMap::insert`, which adds the key (replacing the unit
/// value if it was there); the returned old value is dropped.
#[verifier::external_body]
fn allowed_insert(m: &mut AllowedIps, ip: String)
    ensures
        allowed_set(*final(m)) == allowed_set(*old(m)).insert(ip@),
{
    m.insert(ip, ());
}

/// Trusted: calls `DashMap::remove`, which takes the key out of the map if
/// it is there; the returned entry is dropped.
#[verifier::external_body]
fn allowed_remove(m: &mut AllowedIps, ip: &str)
    ensures
        allowed_set(*final(m)) == allowed_set(*old(m)).remove(ip@),
{
    m.remove(ip);
}

/// Trusted: calls `DashMap::iter` and clones each entry's key. A map holds
/// each key once, so the list has no repeats; its order is the map's
/// iteration order, of which nothing is claimed.
#[verifier::external_body]
fn allowed_list(m: &AllowedIps) -> (v: Vec<String>)
    ensures
        v.deep_view().to_set() == allowed_set(*m),
        v.deep_view().no_duplicates(),
{
    m.iter().map(|e| e.key().clone()).collect()
}

/// `iptables` argument lists that let all traffic from and to `ip` through
/// the forwarding chain.
pub open spec fn allow_rules(ip: Seq<char>) -> Seq<Seq<Seq<char>>> {
    seq![
        seq!["-I"@, "FORWARD"@, "1"@, "-s"@, ip, "-j"@, "ACCEPT"@],
        seq!["-I"@, "FORWARD"@, "1"@, "-d"@, ip, "-j"@, "ACCEPT"@],
    ]
}

/// `iptables` argument lists that delete the rules of [`allow_rules`].
pub open spec fn block_rules(ip: Seq<char>) -> Seq<Seq<Seq<char>>> {
    seq![
        seq!["-D"@, "FORWARD"@, "-s"@, ip, "-j"@, "ACCEPT"@],
        seq!["-D"@, "FORWARD"@, "-d"@, ip, "-j"@, "ACCEPT"@],
    ]
}

/// The rules of [`block_rules`] for each address, in order.
pub open spec fn block_rules_all(ips: Seq<Seq<char>>) -> Seq<Seq<Seq<char>>>
    decreases ips.len(),
{
    if ips.len() == 0 {
        Seq::empty()
    } else {
        block_rules_all(ips.drop_last()) + block_rules(ips.last())
    }
}

/// Allowing the addresses of `ips` one by one, starting from `allowed`:
/// the set reached and the rules issued (none for an address already in).
pub open spec fn allow_all(allowed: Set<Seq<char>>, ips: Seq<Seq<char>>) -> (
    Set<Seq<char>>,
    Seq<Seq<Seq<char>>>,
)
    decreases ips.len(),
{
    if ips.len() == 0 {
        (allowed, Seq::empty())
    } else {
        let (s, r) = allow_all(allowed, ips.drop_last());
        let ip = ips.last();
        if s.contains(ip) {
            (s, r)
        } else {
            (s.insert(ip), r + allow_rules(ip))
        }
    }
}

/// The `iptables` argument lists that put the gateway in its default state:
/// flush the filter and NAT tables, accept loopback input, accept forwarded
/// traffic to and from the server, drop everything else that the WiFi
/// clients send, and masquerade what leaves through the wired interface.
pub open spec fn global_blocking_rules() -> Seq<Seq<Seq<char>>> {
    seq![
        seq!["-F"@],
        seq!["-t"@, "nat"@, "-F"@],
        seq!["-A"@, "INPUT"@, "-i"@, "lo"@, "-j"@, "ACCEPT"@],
        seq!["-A"@, "FORWARD"@, "-d"@, SERVER_IP@, "-j"@, "ACCEPT"@],
        seq!["-A"@, "FORWARD"@, "-s"@, SERVER_IP@, "-j"@, "ACCEPT"@],
        seq!["-A"@, "FORWARD"@, "-i"@, "wlan0"@, "-j"@, "DROP"@],
        seq!["-t"@, "nat"@, "-A"@, "POSTROUTING"@, "-o"@, "eth0"@, "-j"@, "MASQUERADE"@],
    ]
}

/// The address of the appliance's own server on the client network.
pub const SERVER_IP: &'static str = "192.168.1.1";

/// Base URL of the appliance's web API.
pub const SERVER_WEB: &'static str = "http://localhost/api";

/// The rules that put the gateway in its default, closed state (see
/// [`global_blocking_rules`]); they are meant to be applied once, at start.
pub fn setup_global_blocking() -> (rules: Vec<Vec<String>>)
    ensures
        rules.deep_view() == global_blocking_rules(),
{
    let mut rules: Vec<Vec<String>> = Vec::new();
    rules.push(owned_all(&["-F"]));
    rules.push(owned_all(&["-t", "nat", "-F"]));
    rules.push(owned_all(&["-A", "INPUT", "-i", "lo", "-j", "ACCEPT"]));
    rules.push(args_around(&["-A", "FORWARD", "-d"], SERVER_IP, &["-j", "ACCEPT"]));
    rules.push(args_around(&["-A", "FORWARD", "-s"], SERVER_IP, &["-j", "ACCEPT"]));
    rules.push(owned_all(&["-A", "FORWARD", "-i", "wlan0", "-j", "DROP"]));
    rules.push(owned_all(&["-t", "nat", "-A", "POSTROUTING", "-o", "eth0", "-j", "MASQUERADE"]));
    assert(rules.deep_view() =~~= global_blocking_rules());
    rules
}

/// Lets `ip` through. When `ip` was already allowed nothing changes
/// and no rule is issued; otherwise it joins the allowed set and the two
/// rules of [`allow_rules`] are returned, for the caller to apply.
pub fn allow_ip(ip: &str, allowed_ips: &mut AllowedIps) -> (rules: Vec<Vec<String>>)
    ensures
        allowed_set(*final(allowed_ips)) == allowed_set(*old(allowed_ips)).insert(ip@),
        rules.deep_view() == if allowed_set(*old(allowed_ips)).contains(ip@) {
            Seq::empty()
        } else {
            allow_rules(ip@)
        },
{
    let mut rules: Vec<Vec<String>> = Vec::new();
    if allowed_contains(allowed_ips, ip) {
        assert(allowed_set(*old(allowed_ips)).insert(ip@) =~= allowed_set(*old(allowed_ips)));
        assert(rules.deep_view() =~= Seq::empty());
        return rules;
    }
    rules.push(args_around(&["-I", "FORWARD", "1", "-s"], ip, &["-j", "ACCEPT"]));
    rules.push(args_around(&["-I", "FORWARD", "1", "-d"], ip, &["-j", "ACCEPT"]));
    allowed_insert(allowed_ips, owned(ip));
    assert(rules.deep_view() =~~= allow_rules(ip@));
    rules
}

/// Stops `ip` again. When `ip` was not allowed nothing
/// changes and no rule is issued; otherwise it leaves the allowed set and
/// the two rules of [`block_rules`] are returned, for the caller to apply.
pub fn block_ip(ip: &str, allowed_ips: &mut AllowedIps) -> (rules: Vec<Vec<String>>)
    ensures
        allowed_set(*final(allowed_ips)) == allowed_set(*old(allowed_ips)).remove(ip@),
        rules.deep_view() == if allowed_set(*old(allowed_ips)).contains(ip@) {
            block_rules(ip@)
        } else {
            Seq::empty()
        },
{
    let mut rules: Vec<Vec<String>> = Vec::new();
    if !allowed_contains(allowed_ips, ip) {
        assert(allowed_set(*old(allowed_ips)).remove(ip@) =~= allowed_set(*old(allowed_ips)));
        assert(rules.deep_view() =~= Seq::empty());
        return rules;
    }
    rules.push(args_around(&["-D", "FORWARD", "-s"], ip, &["-j", "ACCEPT"]));
    rules.push(args_around(&["-D", "FORWARD", "-d"], ip, &["-j", "ACCEPT"]));
    allowed_remove(allowed_ips, ip);
    assert(rules.deep_view() =~~= block_rules(ip@));
    rules
}

/// Whether `x` is one of `xs`.
pub fn contains_text(xs: &[String], x: &str) -> (b: bool)
    ensures
        b == xs.deep_view().contains(x@),
{
    let key = owned(x);
    let mut i: usize = 0;
    while i < xs.len()
        invariant
            i <= xs@.len(),
            key@ == x@,
            forall|j: int| 0 <= j < i ==> xs@[j]@ != x@,
        decreases xs@.len() - i,
    {
        if xs[i] == key {
            assert(xs.deep_view()[i as int] == x@);
            return true;
        }
        i = i + 1;
    }
    assert forall|j: int| 0 <= j < xs.deep_view().len() implies xs.deep_view()[j] != x@ by {
        assert(xs.deep_view()[j] == xs@[j]@);
    }
    false
}

/// Makes the allowed set exactly the addresses of `ips`: each requested
/// address not yet allowed is allowed (in the order given), then each
/// allowed address that was not requested is blocked (in the map's own
/// order). Returns the rules issued on the way, for the caller to apply.
pub fn reload_allowed_ips(allowed_ips: &mut AllowedIps, ips: &[String]) -> (rules: Vec<
    Vec<String>,
>)
    ensures
        allowed_set(*final(allowed_ips)) == ips.deep_view().to_set(),
        exists|removed: Seq<Seq<char>>|
            {
                &&& removed.no_duplicates()
                &&& removed.to_set() == allowed_set(*old(allowed_ips)).difference(
                    ips.deep_view().to_set(),
                )
                &&& rules.deep_view() == allow_all(
                    allowed_set(*old(allowed_ips)),
                    ips.deep_view(),
                ).1 + block_rules_all(removed)
            },
{
    let ghost old_set = allowed_set(*allowed_ips);
    let ghost want = ips.deep_view();
    let mut rules: Vec<Vec<String>> = Vec::new();
    let mut i: usize = 0;
    while i < ips.len()
        invariant
            i <= ips@.len(),
            want == ips.deep_view(),
            allow_all(old_set, want.take(i as int)) == (allowed_set(*allowed_ips), rules.deep_view()),
        decreases ips@.len() - i,
    {
        let ghost before = rules.deep_view();
        let mut added = allow_ip(ips[i].as_str(), allowed_ips);
        let ghost added_view = added.deep_view();
        rules.append(&mut added);
        proof {
            assert(want.take(i + 1).drop_last() =~= want.take(i as int));
            assert(want.take(i + 1).last() == ips@[i as int]@);
            assert(rules.deep_view() =~= before + added_view);
        }
        i = i + 1;
    }
    assert(want.take(ips@.len() as int) =~= want);
    let ghost mid_set = allowed_set(*allowed_ips);
    let ghost allowed_rules = rules.deep_view();
    proof {
        lemma_allow_all_set(old_set, want);
    }
    let current = allowed_list(allowed_ips);
    let ghost cur = current.deep_view();
    let ghost mut removed: Seq<Seq<char>> = Seq::empty();
    let mut j: usize = 0;
    while j < current.len()
        invariant
            j <= current@.len(),
            cur == current.deep_view(),
            cur.no_duplicates(),
            cur.to_set() == mid_set,
            mid_set == old_set.union(want.to_set()),
            want == ips.deep_view(),
            removed.no_duplicates(),
            forall|k: Seq<char>|
                removed.contains(k) ==> !want.contains(k) && cur.take(j as int).contains(k),
            forall|t: int|
                0 <= t < j && !want.contains(#[trigger] cur[t]) ==> removed.contains(cur[t]),
            allowed_set(*allowed_ips) == mid_set.difference(removed.to_set()),
            rules.deep_view() == allowed_rules + block_rules_all(removed),
        decreases current@.len() - j,
    {
        let ip = current[j].as_str();
        assert(cur[j as int] == ip@);
        if !contains_text(ips, ip) {
            let ghost before = rules.deep_view();
            proof {
                assert(cur.contains(ip@));
                assert(!removed.contains(ip@)) by {
                    if removed.contains(ip@) {
                        let t = choose|t: int| 0 <= t < j && cur.take(j as int)[t] == ip@;
                        assert(cur[t] == cur[j as int]);
                    }
                }
                assert(allowed_set(*allowed_ips).contains(ip@));
            }
            let mut dropped = block_ip(ip, allowed_ips);
            let ghost dropped_view = dropped.deep_view();
            rules.append(&mut dropped);
            proof {
                let r2 = removed.push(ip@);
                assert(r2.drop_last() =~= removed);
                assert(rules.deep_view() =~= before + dropped_view);
                assert(rules.deep_view() =~= allowed_rules + block_rules_all(r2));
                assert(mid_set.difference(removed.to_set()).remove(ip@) =~= mid_set.difference(
                    r2.to_set(),
                ));
                assert forall|k: Seq<char>| r2.contains(k) implies !want.contains(k)
                    && cur.take(j + 1).contains(k) by {
                    if k == ip@ {
                        assert(cur.take(j + 1)[j as int] == ip@);
                    } else {
                        assert(removed.contains(k));
                        let t = choose|t: int| 0 <= t < j && cur.take(j as int)[t] == k;
                        assert(cur.take(j + 1)[t] == k);
                    }
                }
                assert forall|t: int| 0 <= t < j + 1 && !want.contains(#[trigger] cur[t]) implies r2.contains(cur[t]) by {
                    if t < j {
                        assert(removed.contains(cur[t]));
                    } else {
                        assert(r2[removed.len() as int] == cur[t]);
                    }
                }
                removed = r2;
            }
        } else {
            proof {
                assert forall|k: Seq<char>| removed.contains(k) implies !want.contains(k)
                    && cur.take(j + 1).contains(k) by {
                    let t = choose|t: int| 0 <= t < j && cur.take(j as int)[t] == k;
                    assert(cur.take(j + 1)[t] == k);
                }
            }
        }
        j = j + 1;
    }
    proof {
        assert(removed.to_set() =~= old_set.difference(want.to_set())) by {
            assert forall|k: Seq<char>| removed.to_set().contains(k) implies old_set.difference(
                want.to_set(),
            ).contains(k) by {
                assert(removed.contains(k));
                let t = choose|t: int| 0 <= t < j && cur.take(j as int)[t] == k;
                assert(cur.contains(k));
                assert(mid_set.contains(k));
            }
            assert forall|k: Seq<char>| old_set.difference(want.to_set()).contains(k) implies removed.to_set().contains(k) by {
                assert(mid_set.contains(k));
                assert(cur.to_set().contains(k));
                let t = choose|t: int| 0 <= t < cur.len() && cur[t] == k;
                assert(!want.contains(cur[t]));
            }
        }
        assert(allowed_set(*allowed_ips) =~= want.to_set());
    }
    rules
}

/// The rule that deletes the rule `rule` (given with `-I CHAIN POS`):
/// `-D CHAIN` followed by the same match and target.
pub open spec fn deletion_of(rule: Seq<Seq<char>>) -> Seq<Seq<char>> {
    seq!["-D"@, rule[1]] + rule.subrange(3, rule.len() as int)
}

/// Allowing an address that was not allowed and then blocking it leaves
/// the allowed set as it was, and the blocking rules delete, one for one,
/// the rules that allowing added.
pub proof fn law_block_undoes_allow(allowed: Set<Seq<char>>, ip: Seq<char>)
    requires
        !allowed.contains(ip),
    ensures
        allowed.insert(ip).contains(ip),
        allowed.insert(ip).remove(ip) == allowed,
        block_rules(ip).len() == allow_rules(ip).len(),
        forall|k: int| 0 <= k < allow_rules(ip).len() ==> block_rules(ip)[k] == deletion_of(
            #[trigger] allow_rules(ip)[k],
        ),
{
    assert(allowed.insert(ip).remove(ip) =~= allowed);
    assert forall|k: int| 0 <= k < allow_rules(ip).len() implies block_rules(ip)[k] == deletion_of(
        #[trigger] allow_rules(ip)[k],
    ) by {
        assert(block_rules(ip)[k] =~= deletion_of(allow_rules(ip)[k]));
    }
}

/// Allowing twice is allowing once: the second time the address
/// is already in, so nothing changes and no rule is issued.
pub proof fn law_allow_idempotent(allowed: Set<Seq<char>>, ip: Seq<char>)
    ensures
        allowed.insert(ip).contains(ip),
        allowed.insert(ip).insert(ip) == allowed.insert(ip),
{
    assert(allowed.insert(ip).insert(ip) =~= allowed.insert(ip));
}

/// Blocking an address that is not allowed changes nothing.
pub proof fn law_block_closed_is_noop(allowed: Set<Seq<char>>, ip: Seq<char>)
    requires
        !allowed.contains(ip),
    ensures
        allowed.remove(ip) == allowed,
{
    assert(allowed.remove(ip) =~= allowed);
}

/// Allowing addresses that are all in already changes nothing and issues
/// no rule.
pub proof fn lemma_allow_all_present(allowed: Set<Seq<char>>, ips: Seq<Seq<char>>)
    requires
        forall|k: int| 0 <= k < ips.len() ==> allowed.contains(#[trigger] ips[k]),
    ensures
        allow_all(allowed, ips) == (allowed, Seq::<Seq<Seq<char>>>::empty()),
    decreases ips.len(),
{
    if ips.len() > 0 {
        lemma_allow_all_present(allowed, ips.drop_last());
        assert(allowed.contains(ips[ips.len() - 1]));
    }
}

/// Reloading the list that was just loaded issues no rule: every address
/// is in already, and none is to be removed.
pub proof fn law_reload_idempotent(ips: Seq<Seq<char>>, removed: Seq<Seq<char>>)
    requires
        removed.to_set() == ips.to_set().difference(ips.to_set()),
    ensures
        allow_all(ips.to_set(), ips) == (ips.to_set(), Seq::<Seq<Seq<char>>>::empty()),
        allow_all(ips.to_set(), ips).1 + block_rules_all(removed) == Seq::<
            Seq<Seq<char>>,
        >::empty(),
{
    assert forall|k: int| 0 <= k < ips.len() implies ips.to_set().contains(#[trigger] ips[k]) by {
        assert(ips.contains(ips[k]));
    }
    lemma_allow_all_present(ips.to_set(), ips);
    if removed.len() > 0 {
        assert(removed.to_set().contains(removed[0]));
    }
    assert(removed.len() == 0);
    assert(allow_all(ips.to_set(), ips).1 + block_rules_all(removed) =~= Seq::<
        Seq<Seq<char>>,
    >::empty());
}

/// The set reached by [`allow_all`] is the starting set together with all
/// the addresses allowed.
pub proof fn lemma_allow_all_set(allowed: Set<Seq<char>>, ips: Seq<Seq<char>>)
    ensures
        allow_all(allowed, ips).0 == allowed.union(ips.to_set()),
    decreases ips.len(),
{
    if ips.len() == 0 {
        assert(ips.to_set() =~= Set::empty());
        assert(allowed.union(ips.to_set()) =~= allowed);
    } else {
        lemma_allow_all_set(allowed, ips.drop_last());
        let ip = ips.last();
        assert(ips.to_set() =~= ips.drop_last().to_set().insert(ip)) by {
            assert forall|k: Seq<char>| ips.to_set().contains(k) implies ips.drop_last().to_set().insert(k).contains(k) && (k == ip || ips.drop_last().to_set().contains(k)) by {
                let t = choose|t: int| 0 <= t < ips.len() && ips[t] == k;
                if t < ips.len() - 1 {
                    assert(ips.drop_last()[t] == k);
                }
            }
            assert forall|k: Seq<char>| ips.drop_last().to_set().contains(k) implies ips.to_set().contains(k) by {
                let t = choose|t: int| 0 <= t < ips.drop_last().len() && ips.drop_last()[t] == k;
                assert(ips[t] == k);
            }
            assert(ips.to_set().contains(ip)) by {
                assert(ips[ips.len() - 1] == ip);
            }
        }
        let s = allow_all(allowed, ips.drop_last()).0;
        if s.contains(ip) {
            assert(allowed.union(ips.to_set()) =~= s);
        } else {
            assert(allowed.union(ips.to_set()) =~= s.insert(ip));
        }
    }
}

} // verus!
