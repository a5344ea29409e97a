//! Character-level text helpers shared by the parsers and formatters.

use vstd::prelude::*;

verus! {

broadcast use vstd::string::group_string_axioms;

/// Appends one character at the end of a string.
///
/// Trusted: calls std's `String::push`, which the std documentation
/// describes as appending the given `char` to the end of the `String`.
#[verifier::external_body]
pub(crate) fn push_char(s: &mut String, c: char)
    ensures
        final(s)@ == old(s)@.push(c),
{
    s.push(c);
}

/// The characters of `s`, in order.
pub fn chars_of(s: &str) -> (v: Vec<char>)
    ensures
        v@ == s@,
{
    let n = s.unicode_len();
    let mut v: Vec<char> = Vec::new();
    let mut i: usize = 0;
    while i < n
        invariant
            n == s@.len(),
            i <= n,
            v@ == s@.take(i as int),
        decreases n - i,
    {
        let c = s.get_char(i);
        v.push(c);
        assert(s@.take(i + 1) =~= s@.take(i as int).push(c));
        i = i + 1;
    }
    assert(s@.take(n as int) =~= s@);
    v
}

/// Builds a `String` holding exactly the characters of `cs`.
pub fn string_from_chars(cs: &[char]) -> (s: String)
    ensures
        s@ == cs@,
{
    let mut s = String::new();
    let mut i: usize = 0;
    while i < cs.len()
        invariant
            i <= cs@.len(),
            s@ == cs@.take(i as int),
        decreases cs@.len() - i,
    {
        push_char(&mut s, cs[i]);
        assert(cs@.take(i + 1) =~= cs@.take(i as int).push(cs@[i as int]));
        i = i + 1;
    }
    assert(cs@.take(cs@.len() as int) =~= cs@);
    s
}


/// The lowercase hexadecimal digit for `d` (`0 <= d < 16`).
pub open spec fn hex_digit(d: int) -> char {
    if d < 10 {
        (48 + d) as char
    } else {
        (87 + d) as char
    }
}

/// Two lowercase hexadecimal digits for a byte, high nibble first.
pub open spec fn hex2(b: u8) -> Seq<char> {
    seq![hex_digit(b as int / 16), hex_digit(b as int % 16)]
}

/// Decimal digit characters of `n`, without leading zeros.
pub open spec fn decimal(n: nat) -> Seq<char>
    decreases n,
{
    if n < 10 {
        seq![(48 + n) as char]
    } else {
        decimal(n / 10).push((48 + n % 10) as char)
    }
}

fn hex_digit_char(d: u8) -> (c: char)
    requires
        d < 16,
    ensures
        c == hex_digit(d as int),
{
    if d < 10 {
        (48u8 + d) as char
    } else {
        (87u8 + d) as char
    }
}

/// Appends the two lowercase hexadecimal digits of `b` to `s`.
pub fn push_hex2(s: &mut String, b: u8)
    ensures
        final(s)@ == old(s)@ + hex2(b),
{
    push_char(s, hex_digit_char(b / 16));
    push_char(s, hex_digit_char(b % 16));
    assert(final(s)@ =~= old(s)@ + hex2(b));
}

/// Appends the decimal digits of `b` to `s`.
pub fn push_decimal_u8(s: &mut String, b: u8)
    ensures
        final(s)@ == old(s)@ + decimal(b as nat),
{
    let ghost s0 = s@;
    if b >= 100 {
        push_char(s, (48u8 + b / 100) as char);
    }
    if b >= 10 {
        push_char(s, (48u8 + (b / 10) % 10) as char);
    }
    push_char(s, (48u8 + b % 10) as char);
    proof {
        let n = b as nat;
        if n >= 100 {
            assert(decimal(n / 100) == seq![(48 + n / 100) as char]);
            assert(decimal(n / 10) == decimal(n / 100).push((48 + (n / 10) % 10) as char));
            assert((n / 10) / 10 == n / 100);
        } else if n >= 10 {
            assert(decimal(n / 10) == seq![(48 + n / 10) as char]);
            assert((n / 10) % 10 == n / 10);
        }
        assert(s@ =~= s0 + decimal(n));
    }
}


/// Unicode `White_Space` characters (what std's `char::is_whitespace`
/// accepts).
pub open spec fn is_white(c: char) -> bool {
    let u = c as u32;
    ||| 9 <= u <= 13
    ||| u == 32
    ||| u == 0x85
    ||| u == 0xA0
    ||| u == 0x1680
    ||| 0x2000 <= u <= 0x200A
    ||| u == 0x2028
    ||| u == 0x2029
    ||| u == 0x202F
    ||| u == 0x205F
    ||| u == 0x3000
}

/// Whether `c` is a Unicode white-space character.
pub fn is_whitespace(c: char) -> (b: bool)
    ensures
        b == is_white(c),
{
    let u = c as u32;
    (9 <= u && u <= 13) || u == 32 || u == 0x85 || u == 0xA0 || u == 0x1680 || (0x2000 <= u
        && u <= 0x200A) || u == 0x2028 || u == 0x2029 || u == 0x202F || u == 0x205F || u
        == 0x3000
}

/// The maximal runs of non-white-space characters of `s`, in order (what
/// std's `split_whitespace` yields).
pub open spec fn words(s: Seq<char>) -> Seq<Seq<char>>
    decreases s.len(),
{
    if s.len() == 0 {
        Seq::empty()
    } else {
        let prev = s.drop_last();
        let c = s.last();
        let w = words(prev);
        if is_white(c) {
            w
        } else if prev.len() > 0 && !is_white(prev.last()) {
            w.update(w.len() - 1, w.last().push(c))
        } else {
            w.push(seq![c])
        }
    }
}

/// The pieces of `s` between `'\n'` characters; there is always at least
/// one, and a final newline leaves an empty last piece.
pub open spec fn lines(s: Seq<char>) -> Seq<Seq<char>>
    decreases s.len(),
{
    if s.len() == 0 {
        seq![Seq::empty()]
    } else {
        let l = lines(s.drop_last());
        if s.last() == '\n' {
            l.push(Seq::empty())
        } else {
            l.update(l.len() - 1, l.last().push(s.last()))
        }
    }
}

/// `pat` occurs in `s` starting at position `i`.
pub open spec fn occurs_at(s: Seq<char>, pat: Seq<char>, i: int) -> bool {
    0 <= i && i + pat.len() <= s.len() && s.subrange(i, i + pat.len()) == pat
}

/// `pat` occurs somewhere in `s`.
pub open spec fn contains_seq(s: Seq<char>, pat: Seq<char>) -> bool {
    exists|i: int| occurs_at(s, pat, i)
}

/// A string that ends in a non-white-space character has a last word,
/// and that character closes it.
pub proof fn lemma_words_last(s: Seq<char>)
    requires
        s.len() > 0,
        !is_white(s.last()),
    ensures
        words(s).len() > 0,
    decreases s.len(),
{
    let prev = s.drop_last();
    if prev.len() > 0 && !is_white(prev.last()) {
        lemma_words_last(prev);
    }
}

/// A string with a non-white-space character has at least one word.
pub proof fn lemma_words_nonempty(s: Seq<char>, i: int)
    requires
        0 <= i < s.len(),
        !is_white(s[i]),
    ensures
        words(s).len() > 0,
    decreases s.len(),
{
    if i == s.len() - 1 {
        lemma_words_last(s);
    } else {
        lemma_words_nonempty(s.drop_last(), i);
    }
}

/// A text that holds a marker starting with a non-white-space character
/// has a last word.
pub proof fn lemma_marker_words(msg: Seq<char>, marker: Seq<char>)
    requires
        contains_seq(msg, marker),
        marker.len() > 0,
        !is_white(marker[0]),
    ensures
        words(msg).len() > 0,
{
    let i = choose|i: int| occurs_at(msg, marker, i);
    assert(msg.subrange(i, i + marker.len())[0] == msg[i]);
    lemma_words_nonempty(msg, i);
}

/// There is always at least one line.
pub proof fn lemma_lines_len(s: Seq<char>)
    ensures
        lines(s).len() >= 1,
    decreases s.len(),
{
    if s.len() > 0 {
        lemma_lines_len(s.drop_last());
    }
}

/// The words of `cs`, as character vectors.
pub fn split_words(cs: &[char]) -> (ws: Vec<Vec<char>>)
    ensures
        ws.deep_view() == words(cs@),
{
    let mut ws: Vec<Vec<char>> = Vec::new();
    let mut i: usize = 0;
    while i < cs.len()
        invariant
            i <= cs@.len(),
            ws.deep_view() == words(cs@.take(i as int)),
        decreases cs@.len() - i,
    {
        let c = cs[i];
        let ghost before = ws.deep_view();
        let ghost prefix = cs@.take(i + 1);
        proof {
            assert(prefix.drop_last() =~= cs@.take(i as int));
            assert(prefix.last() == c);
        }
        if !is_whitespace(c) {
            if i > 0 && !is_whitespace(cs[i - 1]) {
                proof {
                    assert(cs@.take(i as int).last() == cs@[i - 1]);
                    lemma_words_last(cs@.take(i as int));
                }
                let mut last = ws.pop().unwrap();
                last.push(c);
                ws.push(last);
                assert(ws.deep_view() =~~= before.update(before.len() - 1, before.last().push(c)));
            } else {
                proof {
                    if i > 0 {
                        assert(cs@.take(i as int).last() == cs@[i - 1]);
                    }
                }
                let mut w: Vec<char> = Vec::new();
                w.push(c);
                ws.push(w);
                assert(ws.deep_view() =~~= before.push(seq![c]));
            }
        }
        assert(ws.deep_view() =~= words(prefix));
        i = i + 1;
    }
    assert(cs@.take(cs@.len() as int) =~= cs@);
    ws
}

/// The lines of `cs`, as character vectors.
pub fn split_lines(cs: &[char]) -> (ls: Vec<Vec<char>>)
    ensures
        ls.deep_view() == lines(cs@),
{
    let mut ls: Vec<Vec<char>> = Vec::new();
    ls.push(Vec::new());
    assert(cs@.take(0) =~= Seq::<char>::empty());
    assert(ls.deep_view() =~~= lines(cs@.take(0)));
    let mut i: usize = 0;
    while i < cs.len()
        invariant
            i <= cs@.len(),
            ls.deep_view() == lines(cs@.take(i as int)),
        decreases cs@.len() - i,
    {
        let c = cs[i];
        let ghost before = ls.deep_view();
        let ghost prefix = cs@.take(i + 1);
        proof {
            assert(prefix.drop_last() =~= cs@.take(i as int));
            assert(prefix.last() == c);
            lemma_lines_len(cs@.take(i as int));
        }
        if c == '\n' {
            ls.push(Vec::new());
            assert(ls.deep_view() =~~= before.push(Seq::empty()));
        } else {
            let mut last = ls.pop().unwrap();
            last.push(c);
            ls.push(last);
            assert(ls.deep_view() =~~= before.update(before.len() - 1, before.last().push(c)));
        }
        assert(ls.deep_view() =~= lines(prefix));
        i = i + 1;
    }
    assert(cs@.take(cs@.len() as int) =~= cs@);
    ls
}

/// Whether `pat` occurs in `s`.
pub fn contains_chars(s: &[char], pat: &[char]) -> (b: bool)
    ensures
        b == contains_seq(s@, pat@),
{
    if pat.len() > s.len() {
        assert forall|i: int| !occurs_at(s@, pat@, i) by {}
        return false;
    }
    if pat.len() == 0 {
        assert(s@.subrange(0, 0) =~= pat@);
        assert(occurs_at(s@, pat@, 0));
        return true;
    }
    let end = s.len() - pat.len() + 1;
    let mut i: usize = 0;
    while i < end
        invariant
            end == s@.len() - pat@.len() + 1,
            pat@.len() <= s@.len(),
            i <= end,
            forall|k: int| 0 <= k < i ==> !occurs_at(s@, pat@, k),
        decreases end - i,
    {
        let mut j: usize = 0;
        let mut same = true;
        while j < pat.len()
            invariant
                i < end,
                end == s@.len() - pat@.len() + 1,
                pat@.len() <= s@.len(),
                j <= pat@.len(),
                same == (forall|t: int| 0 <= t < j ==> s@[i + t] == pat@[t]),
            decreases pat@.len() - j,
        {
            assert(i + j < s@.len());
            assert(s@.len() == s.len());
            if s[i + j] != pat[j] {
                same = false;
            }
            j = j + 1;
        }
        if same {
            assert(s@.subrange(i as int, i + pat@.len()) =~= pat@);
            assert(occurs_at(s@, pat@, i as int));
            return true;
        }
        proof {
            if occurs_at(s@, pat@, i as int) {
                assert forall|t: int| 0 <= t < pat@.len() implies s@[i + t] == pat@[t] by {
                    assert(s@.subrange(i as int, i + pat@.len())[t] == s@[i + t]);
                }
            }
        }
        i = i + 1;
    }
    assert forall|k: int| !occurs_at(s@, pat@, k) by {
        if 0 <= k && k + pat@.len() <= s@.len() {
            assert(k < end);
        }
    }
    false
}

} // verus!
