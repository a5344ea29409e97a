//! Command lines that the appliance hands to the system (`iptables`, `sh`).

use vstd::prelude::*;

verus! {

broadcast use vstd::string::group_string_axioms;

/// Owned copy of a string slice.
pub fn owned(s: &str) -> (r: String)
    ensures
        r@ == s@,
{
    s.to_owned()
}

/// Owned copies of string slices, in order.
pub fn owned_all(xs: &[&str]) -> (v: Vec<String>)
    ensures
        v.deep_view() == xs@.map_values(|s: &str| s@),
{
    let mut v: Vec<String> = Vec::new();
    let mut i: usize = 0;
    while i < xs.len()
        invariant
            i <= xs@.len(),
            v.deep_view() == xs@.take(i as int).map_values(|s: &str| s@),
        decreases xs@.len() - i,
    {
        let ghost before = v.deep_view();
        v.push(owned(xs[i]));
        assert(v.deep_view() =~= before.push(xs@[i as int]@));
        assert(xs@.take(i + 1).map_values(|s: &str| s@) =~= xs@.take(i as int).map_values(
            |s: &str| s@,
        ).push(xs@[i as int]@));
        i = i + 1;
    }
    assert(xs@.take(xs@.len() as int) =~= xs@);
    v
}

/// `head`, then `ip`, then `tail`, as owned strings.
pub fn args_around(head: &[&str], ip: &str, tail: &[&str]) -> (v: Vec<String>)
    ensures
        v.deep_view() == head@.map_values(|s: &str| s@) + seq![ip@] + tail@.map_values(
            |s: &str| s@,
        ),
{
    let mut v = owned_all(head);
    let mut t = owned_all(tail);
    v.push(owned(ip));
    let ghost mid = v.deep_view();
    v.append(&mut t);
    assert(v.deep_view() =~= mid + tail@.map_values(|s: &str| s@));
    v
}

/// `a` followed by `b`.
pub fn concat(a: &str, b: &str) -> (r: String)
    ensures
        r@ == a@ + b@,
{
    let mut r = owned(a);
    r.append(b);
    r
}

} // verus!
