//! Best-effort extraction of a host and a port from a URL-like string.
//!
//! The functions here never fail: whatever cannot be recognised is left in
//! the host, and the caller's default port is used. All positions are counted
//! in characters.

use vstd::prelude::*;

verus! {

/// Position of the first `c` in `s` at or after `from`, or `s.len()` when
/// there is none.
pub open spec fn first_from(s: Seq<char>, c: char, from: int) -> int
    decreases s.len() - from,
{
    if from < 0 || from >= s.len() {
        s.len() as int
    } else if s[from] == c {
        from
    } else {
        first_from(s, c, from + 1)
    }
}

/// Position of the last `c` in `s` before `end`, or `-1` when there is none.
pub open spec fn last_before(s: Seq<char>, c: char, end: int) -> int
    decreases end,
{
    if end <= 0 || end > s.len() {
        -1
    } else if s[end - 1] == c {
        end - 1
    } else {
        last_before(s, c, end - 1)
    }
}

/// The three characters `://` stand at position `i` of `s`.
pub open spec fn is_scheme_sep(s: Seq<char>, i: int) -> bool {
    &&& 0 <= i
    &&& i + 3 <= s.len()
    &&& s[i] == ':'
    &&& s[i + 1] == '/'
    &&& s[i + 2] == '/'
}

/// Position of the first `://` in `s` at or after `from`, or `s.len()` when
/// there is none.
pub open spec fn scheme_sep_from(s: Seq<char>, from: int) -> int
    decreases s.len() - from,
{
    if from < 0 || from + 3 > s.len() {
        s.len() as int
    } else if is_scheme_sep(s, from) {
        from
    } else {
        scheme_sep_from(s, from + 1)
    }
}

/// `s` without its leading `scheme://`, if it has one.
pub open spec fn without_scheme(s: Seq<char>) -> Seq<char> {
    let p = scheme_sep_from(s, 0);
    if p < s.len() {
        s.subrange(p + 3, s.len() as int)
    } else {
        s
    }
}

/// `s` up to its first `/`, which is left out too.
pub open spec fn without_path(s: Seq<char>) -> Seq<char> {
    s.subrange(0, first_from(s, '/', 0))
}

/// What is left of `raw` once the scheme and the path are gone.
pub open spec fn spec_strip_scheme_and_path(raw: Seq<char>) -> Seq<char> {
    without_path(without_scheme(raw))
}

/// `c` is one of the ten ASCII digits.
pub open spec fn is_digit(c: char) -> bool {
    '0' as u32 <= c as u32 && c as u32 <= '9' as u32
}

/// The value of the digit `c`; `0` for any other character.
pub open spec fn digit_value(c: char) -> nat {
    if is_digit(c) {
        (c as u32 - '0' as u32) as nat
    } else {
        0
    }
}

/// The number that the digits of `s` write in base ten.
pub open spec fn decimal_value(s: Seq<char>) -> nat
    decreases s.len(),
{
    if s.len() == 0 {
        0
    } else {
        10 * decimal_value(s.drop_last()) + digit_value(s.last())
    }
}

/// Every character of `s` is an ASCII digit.
pub open spec fn all_digits(s: Seq<char>) -> bool {
    forall|i: int| 0 <= i < s.len() ==> is_digit(#[trigger] s[i])
}

/// `s` without a leading `+`.
pub open spec fn without_plus(s: Seq<char>) -> Seq<char> {
    if s.len() > 0 && s[0] == '+' {
        s.drop_first()
    } else {
        s
    }
}

/// The port that `s` writes: an optional `+`, then at least one ASCII digit
/// and nothing else, with a value of at most 65535. Leading zeros are
/// accepted. `None` for every other text.
pub open spec fn parse_port(s: Seq<char>) -> Option<u16> {
    let d = without_plus(s);
    if d.len() > 0 && all_digits(d) && decimal_value(d) <= u16::MAX {
        Some(decimal_value(d) as u16)
    } else {
        None
    }
}

/// Host and port of a URL-like text.
///
/// After scheme and path are stripped: a text that opens with `[` and holds a
/// `]` has the bracketed part as its host, and as its port what follows `]:`
/// if that is a port. Any other text is split at its last `:` if a port
/// follows it. Where no port is found the text is the host and
/// `default_port` the port.
pub open spec fn spec_normalize_host_port(raw: Seq<char>, default_port: u16) -> (Seq<char>, u16) {
    let s = spec_strip_scheme_and_path(raw);
    let close = first_from(s, ']', 0);
    let colon = last_before(s, ':', s.len() as int);
    if s.len() > 0 && s[0] == '[' && close < s.len() {
        let host = s.subrange(1, close);
        let rest = s.subrange(close + 1, s.len() as int);
        if rest.len() > 0 && rest[0] == ':' {
            match parse_port(rest.drop_first()) {
                Some(p) => (host, p),
                None => (host, default_port),
            }
        } else {
            (host, default_port)
        }
    } else if colon >= 0 {
        match parse_port(s.subrange(colon + 1, s.len() as int)) {
            Some(p) => (s.subrange(0, colon), p),
            None => (s, default_port),
        }
    } else {
        (s, default_port)
    }
}

/// Host of a URL-like text: the host that `spec_normalize_host_port` finds.
pub open spec fn spec_normalize_host(raw: Seq<char>) -> Seq<char> {
    spec_normalize_host_port(raw, 0).0
}

/// `first_from` returns the first position of `c` at or after `from`.
pub proof fn lemma_first_from(s: Seq<char>, c: char, from: int)
    requires
        0 <= from <= s.len(),
    ensures
        from <= first_from(s, c, from) <= s.len(),
        first_from(s, c, from) < s.len() ==> s[first_from(s, c, from)] == c,
        forall|j: int| from <= j < first_from(s, c, from) ==> s[j] != c,
    decreases s.len() - from,
{
    if from < s.len() && s[from] != c {
        lemma_first_from(s, c, from + 1);
    }
}

/// `last_before` returns the last position of `c` before `end`.
pub proof fn lemma_last_before(s: Seq<char>, c: char, end: int)
    requires
        0 <= end <= s.len(),
    ensures
        -1 <= last_before(s, c, end) < end,
        last_before(s, c, end) >= 0 ==> s[last_before(s, c, end)] == c,
        forall|j: int| last_before(s, c, end) < j < end ==> s[j] != c,
    decreases end,
{
    if end > 0 && s[end - 1] != c {
        lemma_last_before(s, c, end - 1);
    }
}

/// `scheme_sep_from` returns the first position of `://` at or after `from`.
pub proof fn lemma_scheme_sep_from(s: Seq<char>, from: int)
    requires
        0 <= from <= s.len(),
    ensures
        from <= scheme_sep_from(s, from) <= s.len(),
        scheme_sep_from(s, from) < s.len() ==> is_scheme_sep(s, scheme_sep_from(s, from)),
        forall|j: int| from <= j < scheme_sep_from(s, from) ==> !is_scheme_sep(s, j),
    decreases s.len() - from,
{
    if from + 3 <= s.len() && !is_scheme_sep(s, from) {
        lemma_scheme_sep_from(s, from + 1);
    }
}

/// A prefix of a text writes no larger number than the text.
pub proof fn lemma_decimal_value_prefix(s: Seq<char>, n: int)
    requires
        0 <= n <= s.len(),
    ensures
        decimal_value(s.subrange(0, n)) <= decimal_value(s),
    decreases s.len() - n,
{
    if n < s.len() {
        lemma_decimal_value_prefix(s, n + 1);
        let longer = s.subrange(0, n + 1);
        assert(longer.drop_last() =~= s.subrange(0, n));
    } else {
        assert(s.subrange(0, n) =~= s);
    }
}

/// The characters of `s`, in order.
pub fn to_chars(s: &str) -> (v: Vec<char>)
    ensures
        v@ == s@,
{
    let mut v: Vec<char> = Vec::new();
    for c in it: s.chars()
        invariant
            v@ == it.seq().take(it.index()),
    {
        v.push(c);
    }
    v
}

/// Searches `v` for `c` from position `from` on.
fn find_from(v: &Vec<char>, c: char, from: usize) -> (r: usize)
    requires
        from <= v.len(),
    ensures
        r == first_from(v@, c, from as int),
        from <= r <= v.len(),
{
    let mut i: usize = from;
    while i < v.len() && v[i] != c
        invariant
            from <= i <= v.len(),
            first_from(v@, c, from as int) == first_from(v@, c, i as int),
        decreases v.len() - i,
    {
        i += 1;
    }
    i
}

/// Searches `v` backwards for `c`; `None` stands for the `-1` of `last_before`.
fn rfind(v: &Vec<char>, c: char) -> (r: Option<usize>)
    ensures
        match r {
            Some(i) => i < v.len() && i == last_before(v@, c, v.len() as int),
            None => last_before(v@, c, v.len() as int) == -1,
        },
{
    let mut end: usize = v.len();
    while end > 0
        invariant
            end <= v.len(),
            last_before(v@, c, v.len() as int) == last_before(v@, c, end as int),
        decreases end,
    {
        if v[end - 1] == c {
            return Some(end - 1);
        }
        end -= 1;
    }
    None
}

/// Searches `v` for `://`.
fn find_scheme_sep(v: &Vec<char>) -> (r: usize)
    ensures
        r == scheme_sep_from(v@, 0),
        r <= v.len(),
        r < v.len() ==> r + 3 <= v.len(),
{
    let n = v.len();
    let mut i: usize = 0;
    while i < n && n - i >= 3
        invariant
            n == v.len(),
            i <= n,
            scheme_sep_from(v@, 0) == scheme_sep_from(v@, i as int),
        decreases n - i,
    {
        if v[i] == ':' && v[i + 1] == '/' && v[i + 2] == '/' {
            return i;
        }
        i += 1;
    }
    n
}

/// Reads `v[from..]` as a port.
fn parse_port_at(v: &Vec<char>, from: usize) -> (r: Option<u16>)
    requires
        from <= v.len(),
    ensures
        r == parse_port(v@.subrange(from as int, v.len() as int)),
{
    let n = v.len();
    let ghost s = v@.subrange(from as int, n as int);
    let start: usize = if from < n && v[from] == '+' {
        from + 1
    } else {
        from
    };
    let ghost d = without_plus(s);
    assert(d =~= v@.subrange(start as int, n as int));
    if start == n {
        return None;
    }
    let mut acc: u32 = 0;
    let mut i: usize = start;
    while i < n
        invariant
            start <= i <= n,
            n == v.len(),
            d == v@.subrange(start as int, n as int),
            d == without_plus(v@.subrange(from as int, n as int)),
            acc == decimal_value(d.subrange(0, i - start)),
            acc <= u16::MAX,
            all_digits(d.subrange(0, i - start)),
        decreases n - i,
    {
        let c = v[i];
        let ghost longer = d.subrange(0, i - start + 1);
        proof {
            assert(longer.drop_last() =~= d.subrange(0, i - start));
            assert(longer.last() == c);
        }
        let code: u32 = c as u32;
        if code < '0' as u32 || code > '9' as u32 {
            assert(!is_digit(d[i - start]));
            return None;
        }
        let digit: u32 = code - '0' as u32;
        let next: u32 = acc * 10 + digit;
        if next > 65535 {
            proof {
                lemma_decimal_value_prefix(d, i - start + 1);
            }
            return None;
        }
        acc = next;
        i += 1;
    }
    assert(d.subrange(0, n - start) =~= d);
    Some(acc as u16)
}

/// Strips a leading `scheme://` and everything from the first `/` that
/// follows.
pub fn strip_scheme_and_path(raw: &str) -> (s: String)
    ensures
        s@ == spec_strip_scheme_and_path(raw@),
{
    let chars = to_chars(raw);
    let n = chars.len();
    let sep = find_scheme_sep(&chars);
    let start: usize = if sep < n {
        sep + 3
    } else {
        0
    };
    let rest = raw.substring_char(start, n);
    assert(rest@ =~= without_scheme(raw@));
    let rest_chars = to_chars(rest);
    let end = find_from(&rest_chars, '/', 0);
    rest.substring_char(0, end).to_owned()
}

/// Best-effort parsing of a host and a port from a URL-like string.
///
/// Strips `scheme://` and any path, unwraps a bracketed IPv6 literal, and
/// takes a numeric `:port` suffix as the port; without one the port is
/// `default_port`.
pub fn normalize_host_port(raw: &str, default_port: u16) -> (r: (String, u16))
    ensures
        r.0@ == spec_normalize_host_port(raw@, default_port).0,
        r.1 == spec_normalize_host_port(raw@, default_port).1,
{
    let s = strip_scheme_and_path(raw);
    let text = s.as_str();
    let chars = to_chars(text);
    let n = chars.len();
    if n > 0 && chars[0] == '[' {
        let close = find_from(&chars, ']', 0);
        if close < n {
            assert(close >= 1 && text@.len() == n) by {
                lemma_first_from(chars@, ']', 1);
            }
            let host = text.substring_char(1, close).to_owned();
            if close + 1 < n && chars[close + 1] == ':' {
                assert(chars@.subrange(close + 1, n as int).drop_first() =~= chars@.subrange(
                    close + 2,
                    n as int,
                ));
                match parse_port_at(&chars, close + 2) {
                    Some(p) => {
                        return (host, p);
                    },
                    None => {},
                }
            }
            return (host, default_port);
        }
    }
    match rfind(&chars, ':') {
        Some(pos) => {
            match parse_port_at(&chars, pos + 1) {
                Some(p) => {
                    let host = text.substring_char(0, pos).to_owned();
                    return (host, p);
                },
                None => {},
            }
        },
        None => {},
    }
    (s, default_port)
}

/// Best-effort extraction of a host name from a URL-like string: the host
/// that `normalize_host_port` finds, whatever the port.
pub fn normalize_host(raw: &str) -> (host: String)
    ensures
        host@ == spec_normalize_host(raw@),
{
    normalize_host_port(raw, 0).0
}

/// The host that is found does not depend on the default port.
pub proof fn lemma_host_ignores_default_port(raw: Seq<char>, a: u16, b: u16)
    ensures
        spec_normalize_host_port(raw, a).0 == spec_normalize_host_port(raw, b).0,
{
}

} // verus!
