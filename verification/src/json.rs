//! The provider wire formats, read and written by verified code.
//!
//! Responses that matter here are flat JSON values: an array of record ids,
//! and objects whose members are strings without escapes or unsigned
//! integers.  The update body is rendered directly as the exact byte string
//! that is both signed and transmitted.

use vstd::prelude::*;
use vstd::string::StringExecFns;

use crate::text::{dec_digit, is_dec_digit, spec_dec_value, parse_u64};

verus! {

broadcast use vstd::string::group_string_axioms;

// ---------------------------------------------------------------------------
// scanning primitives
// ---------------------------------------------------------------------------

pub open spec fn is_ws(c: char) -> bool {
    c == ' ' || c == '\t' || c == '\n' || c == '\r'
}

/// First index at or after `i` holding a non-blank character.
pub open spec fn spec_skip_ws(s: Seq<char>, i: int) -> int
    decreases s.len() - i
        when 0 <= i <= s.len()
{
    if 0 <= i < s.len() && is_ws(s[i]) {
        spec_skip_ws(s, i + 1)
    } else {
        i
    }
}

pub proof fn lemma_skip_ws_bounds(s: Seq<char>, i: int)
    requires
        0 <= i <= s.len(),
    ensures
        i <= spec_skip_ws(s, i) <= s.len(),
        spec_skip_ws(s, i) == s.len() || !is_ws(s[spec_skip_ws(s, i)]),
    decreases s.len() - i,
{
    if i < s.len() && is_ws(s[i]) {
        lemma_skip_ws_bounds(s, i + 1);
    }
}

fn ws_char(c: char) -> (r: bool)
    ensures
        r == is_ws(c),
{
    c == ' ' || c == '\t' || c == '\n' || c == '\r'
}

fn skip_ws(s: &str, i: usize) -> (r: usize)
    requires
        i <= s@.len(),
    ensures
        r as int == spec_skip_ws(s@, i as int),
        i <= r <= s@.len(),
{
    let n = s.unicode_len();
    let mut k: usize = i;
    while k < n && ws_char(s.get_char(k))
        invariant
            n == s@.len(),
            i <= k <= n,
            spec_skip_ws(s@, i as int) == spec_skip_ws(s@, k as int),
        decreases n - k,
    {
        k = k + 1;
    }
    proof {
        lemma_skip_ws_bounds(s@, k as int);
    }
    k
}

/// Content of a string token whose opening quote stands just before `i`:
/// the characters up to the closing quote, none of which may be a quote or
/// a backslash, and the index after the closing quote.
pub open spec fn spec_scan_string_body(s: Seq<char>, i: int) -> Option<(Seq<char>, int)>
    decreases s.len() - i
        when 0 <= i <= s.len()
{
    if !(0 <= i < s.len()) {
        None
    } else if s[i] == '"' {
        Some((Seq::<char>::empty(), i + 1))
    } else if s[i] == '\\' {
        None
    } else {
        match spec_scan_string_body(s, i + 1) {
            None => None,
            Some((t, j)) => Some((seq![s[i]] + t, j)),
        }
    }
}

proof fn lemma_scan_string_body(s: Seq<char>, i: int, j: int)
    requires
        0 <= i <= j <= s.len(),
        forall|k: int| i <= k < j ==> ((#[trigger] s[k]) != '"' && s[k] != '\\'),
    ensures
        j == s.len() ==> spec_scan_string_body(s, i) is None,
        j < s.len() && s[j] == '\\' ==> spec_scan_string_body(s, i) is None,
        j < s.len() && s[j] == '"' ==> spec_scan_string_body(s, i) == Some(
            (s.subrange(i, j), j + 1),
        ),
    decreases j - i,
{
    if i < j {
        lemma_scan_string_body(s, i + 1, j);
        if j < s.len() && s[j] == '"' {
            assert(seq![s[i]] + s.subrange(i + 1, j) =~= s.subrange(i, j));
        }
    } else {
        if j < s.len() && s[j] == '"' {
            assert(s.subrange(i, j) =~= Seq::<char>::empty());
        }
    }
}

fn scan_string_body(s: &str, i: usize) -> (r: Option<(String, usize)>)
    requires
        i <= s@.len(),
    ensures
        match r {
            Some(p) => spec_scan_string_body(s@, i as int) == Some((p.0@, p.1 as int)) && i < p.1
                <= s@.len(),
            None => spec_scan_string_body(s@, i as int) is None,
        },
{
    let n = s.unicode_len();
    let mut k: usize = i;
    while k < n
        invariant
            n == s@.len(),
            i <= k <= n,
            forall|t: int| i <= t < k ==> ((#[trigger] s@[t]) != '"' && s@[t] != '\\'),
        decreases n - k,
    {
        let c = s.get_char(k);
        if c == '"' {
            let content = s.substring_char(i, k).to_owned();
            proof {
                lemma_scan_string_body(s@, i as int, k as int);
            }
            return Some((content, k + 1));
        }
        if c == '\\' {
            proof {
                lemma_scan_string_body(s@, i as int, k as int);
            }
            return None;
        }
        k = k + 1;
    }
    proof {
        lemma_scan_string_body(s@, i as int, n as int);
    }
    None
}

/// First index at or after `i` holding a non-digit.
pub open spec fn spec_scan_digits(s: Seq<char>, i: int) -> int
    decreases s.len() - i
        when 0 <= i <= s.len()
{
    if 0 <= i < s.len() && is_dec_digit(s[i]) {
        spec_scan_digits(s, i + 1)
    } else {
        i
    }
}

pub proof fn lemma_scan_digits_bounds(s: Seq<char>, i: int)
    requires
        0 <= i <= s.len(),
    ensures
        i <= spec_scan_digits(s, i) <= s.len(),
        forall|k: int| i <= k < spec_scan_digits(s, i) ==> is_dec_digit(#[trigger] s[k]),
    decreases s.len() - i,
{
    if i < s.len() && is_dec_digit(s[i]) {
        lemma_scan_digits_bounds(s, i + 1);
    }
}

fn scan_digits(s: &str, i: usize) -> (r: usize)
    requires
        i <= s@.len(),
    ensures
        r as int == spec_scan_digits(s@, i as int),
        i <= r <= s@.len(),
{
    let n = s.unicode_len();
    let mut k: usize = i;
    while k < n && dec_digit(s.get_char(k))
        invariant
            n == s@.len(),
            i <= k <= n,
            spec_scan_digits(s@, i as int) == spec_scan_digits(s@, k as int),
        decreases n - k,
    {
        k = k + 1;
    }
    proof {
        lemma_scan_digits_bounds(s@, k as int);
    }
    k
}

// ---------------------------------------------------------------------------
// flat objects: the string member named `key`
// ---------------------------------------------------------------------------

/// Scans the members of a flat object from just after `{` or a `,`.
/// `acc` carries the first value already found for `key`; the scan fails
/// on anything but `"key": value` members, string or unsigned integer
/// values, a closing `}` and nothing but blanks after it.
pub open spec fn spec_scan_members(
    s: Seq<char>,
    i: int,
    key: Seq<char>,
    acc: Option<Seq<char>>,
) -> Option<Option<Seq<char>>>
    decreases s.len() - i
        when 0 <= i <= s.len()
{
    let j = spec_skip_ws(s, i);
    if !(0 <= i <= s.len() && i <= j && j < s.len() && s[j] == '"') {
        None
    } else {
        match spec_scan_string_body(s, j + 1) {
            None => None,
            Some((k, j2)) => {
                let j3 = spec_skip_ws(s, j2);
                if !(j2 <= j3 && j3 < s.len() && s[j3] == ':') {
                    None
                } else {
                    let j4 = spec_skip_ws(s, j3 + 1);
                    if !(j4 < s.len()) {
                        None
                    } else if s[j4] == '"' {
                        match spec_scan_string_body(s, j4 + 1) {
                            None => None,
                            Some((v, j5)) => {
                                if i < j5 <= s.len() {
                                    spec_scan_after_member(
                                        s,
                                        j5,
                                        key,
                                        if k == key && acc is None {
                                            Some(v)
                                        } else {
                                            acc
                                        },
                                    )
                                } else {
                                    None
                                }
                            },
                        }
                    } else if is_dec_digit(s[j4]) {
                        let j5 = spec_scan_digits(s, j4);
                        if i < j5 <= s.len() {
                            spec_scan_after_member(s, j5, key, acc)
                        } else {
                            None
                        }
                    } else {
                        None
                    }
                }
            },
        }
    }
}

/// After one member: either a comma and another member, or the closing
/// brace followed only by blanks.
pub open spec fn spec_scan_after_member(
    s: Seq<char>,
    i: int,
    key: Seq<char>,
    acc: Option<Seq<char>>,
) -> Option<Option<Seq<char>>>
    decreases s.len() - i
        when 0 <= i <= s.len()
{
    let j = spec_skip_ws(s, i);
    if !(0 <= i <= s.len() && i <= j && j < s.len()) {
        None
    } else if s[j] == ',' {
        if i < j + 1 <= s.len() {
            spec_scan_members(s, j + 1, key, acc)
        } else {
            None
        }
    } else if s[j] == '}' {
        if spec_skip_ws(s, j + 1) == s.len() {
            Some(acc)
        } else {
            None
        }
    } else {
        None
    }
}

/// The value of the string member named `key` in a flat JSON object;
/// `None` when the text is not such an object or holds no string member of
/// that name.
pub open spec fn spec_json_string_member(s: Seq<char>, key: Seq<char>) -> Option<Seq<char>> {
    let i = spec_skip_ws(s, 0);
    if !(i < s.len() && s[i] == '{') {
        None
    } else {
        let j = spec_skip_ws(s, i + 1);
        if j < s.len() && s[j] == '}' {
            None
        } else {
            match spec_scan_members(s, i + 1, key, None) {
                None => None,
                Some(acc) => acc,
            }
        }
    }
}

fn scan_members(s: &str, i: usize, key: &str, acc: Option<String>) -> (r: Option<Option<String>>)
    requires
        i <= s@.len(),
    ensures
        match r {
            Some(a) => spec_scan_members(s@, i as int, key@, acc.deep_view()) == Some(
                a.deep_view(),
            ),
            None => spec_scan_members(s@, i as int, key@, acc.deep_view()) is None,
        },
    decreases s@.len() - i,
{
    let n = s.unicode_len();
    let j = skip_ws(s, i);
    if !(j < n && s.get_char(j) == '"') {
        return None;
    }
    let scanned = scan_string_body(s, j + 1);
    match scanned {
        None => None,
        Some((k, j2)) => {
            let j3 = skip_ws(s, j2);
            if !(j3 < n && s.get_char(j3) == ':') {
                return None;
            }
            let j4 = skip_ws(s, j3 + 1);
            if !(j4 < n) {
                return None;
            }
            let c4 = s.get_char(j4);
            if c4 == '"' {
                match scan_string_body(s, j4 + 1) {
                    None => None,
                    Some((v, j5)) => {
                        let take = crate::text::str_eq(k.as_str(), key) && acc.is_none();
                        let acc2: Option<String> = if take {
                            Some(v)
                        } else {
                            acc
                        };
                        scan_after_member(s, j5, key, acc2)
                    },
                }
            } else if dec_digit(c4) {
                let j5 = scan_digits(s, j4);
                proof {
                    assert(j5 > i);
                }
                scan_after_member(s, j5, key, acc)
            } else {
                None
            }
        },
    }
}

fn scan_after_member(s: &str, i: usize, key: &str, acc: Option<String>) -> (r: Option<
    Option<String>,
>)
    requires
        i <= s@.len(),
    ensures
        match r {
            Some(a) => spec_scan_after_member(s@, i as int, key@, acc.deep_view()) == Some(
                a.deep_view(),
            ),
            None => spec_scan_after_member(s@, i as int, key@, acc.deep_view()) is None,
        },
    decreases s@.len() - i,
{
    let n = s.unicode_len();
    let j = skip_ws(s, i);
    if !(j < n) {
        return None;
    }
    let c = s.get_char(j);
    if c == ',' {
        scan_members(s, j + 1, key, acc)
    } else if c == '}' {
        let e = skip_ws(s, j + 1);
        if e == n {
            Some(acc)
        } else {
            None
        }
    } else {
        None
    }
}

/// Reads the string member named `key` out of a flat JSON object, exactly
/// as the specification-level scan describes it.
pub fn json_string_member(s: &str, key: &str) -> (r: Option<String>)
    ensures
        r.deep_view() == spec_json_string_member(s@, key@),
{
    let n = s.unicode_len();
    let i = skip_ws(s, 0);
    if !(i < n && s.get_char(i) == '{') {
        return None;
    }
    let j = skip_ws(s, i + 1);
    if j < n && s.get_char(j) == '}' {
        return None;
    }
    match scan_members(s, i + 1, key, None) {
        None => None,
        Some(acc) => acc,
    }
}

// ---------------------------------------------------------------------------
// record id arrays
// ---------------------------------------------------------------------------

/// Scans the items of a non-empty id array from just after `[` or a `,`:
/// unsigned decimal integers separated by commas, closed by `]` and
/// nothing but blanks after it.
pub open spec fn spec_scan_id_items(s: Seq<char>, i: int) -> Option<Seq<u64>>
    decreases s.len() - i
        when 0 <= i <= s.len()
{
    let j = spec_skip_ws(s, i);
    if !(0 <= i <= s.len() && i <= j && j < s.len() && is_dec_digit(s[j])) {
        None
    } else {
        let j2 = spec_scan_digits(s, j);
        if !(j < j2 <= s.len()) {
            None
        } else {
            let v = spec_dec_value(s.subrange(j, j2));
            if v > u64::MAX {
                None
            } else {
                let j3 = spec_skip_ws(s, j2);
                if !(j3 < s.len()) {
                    None
                } else if s[j3] == ',' {
                    if i < j3 + 1 <= s.len() {
                        match spec_scan_id_items(s, j3 + 1) {
                            None => None,
                            Some(rest) => Some(seq![v as u64] + rest),
                        }
                    } else {
                        None
                    }
                } else if s[j3] == ']' {
                    if spec_skip_ws(s, j3 + 1) == s.len() {
                        Some(seq![v as u64])
                    } else {
                        None
                    }
                } else {
                    None
                }
            }
        }
    }
}

fn scan_id_items(s: &str, i: usize) -> (r: Option<Vec<u64>>)
    requires
        i <= s@.len(),
    ensures
        match r {
            Some(v) => spec_scan_id_items(s@, i as int) == Some(v@),
            None => spec_scan_id_items(s@, i as int) is None,
        },
    decreases s@.len() - i,
{
    let n = s.unicode_len();
    let j = skip_ws(s, i);
    if !(j < n && dec_digit(s.get_char(j))) {
        return None;
    }
    let j2 = scan_digits(s, j);
    proof {
        lemma_scan_digits_bounds(s@, j as int + 1);
        assert(spec_scan_digits(s@, j as int) == spec_scan_digits(s@, j as int + 1));
        lemma_scan_digits_bounds(s@, j as int);
    }
    let num = s.substring_char(j, j2);
    match parse_u64(num) {
        None => {
            proof {
                assert(num@ == s@.subrange(j as int, j2 as int));
                assert(num@.len() >= 1);
                assert(crate::text::all_dec_digits(num@));
            }
            None
        },
        Some(v) => {
            let j3 = skip_ws(s, j2);
            if !(j3 < n) {
                return None;
            }
            let c = s.get_char(j3);
            if c == ',' {
                match scan_id_items(s, j3 + 1) {
                    None => None,
                    Some(rest) => {
                        let mut out: Vec<u64> = Vec::new();
                        out.push(v);
                        let mut k: usize = 0;
                        while k < rest.len()
                            invariant
                                0 <= k <= rest@.len(),
                                out@.len() == k + 1,
                                out@[0] == v,
                                forall|t: int| 0 <= t < k ==> out@[t + 1] == rest@[t],
                            decreases rest@.len() - k,
                        {
                            out.push(rest[k]);
                            k = k + 1;
                        }
                        proof {
                            assert(out@ =~= seq![v] + rest@);
                        }
                        Some(out)
                    },
                }
            } else if c == ']' {
                let e = skip_ws(s, j3 + 1);
                if e == n {
                    let mut out: Vec<u64> = Vec::new();
                    out.push(v);
                    proof {
                        assert(out@ =~= seq![v]);
                    }
                    Some(out)
                } else {
                    None
                }
            } else {
                None
            }
        },
    }
}

/// The record ids in a JSON array of unsigned decimal integers; `None` on
/// any other text, a value beyond the id range, or trailing content.
pub open spec fn spec_parse_id_list(s: Seq<char>) -> Option<Seq<u64>> {
    let i = spec_skip_ws(s, 0);
    if !(i < s.len() && s[i] == '[') {
        None
    } else {
        let j = spec_skip_ws(s, i + 1);
        if j < s.len() && s[j] == ']' {
            if spec_skip_ws(s, j + 1) == s.len() {
                Some(Seq::<u64>::empty())
            } else {
                None
            }
        } else {
            spec_scan_id_items(s, i + 1)
        }
    }
}

pub fn parse_id_list(s: &str) -> (r: Option<Vec<u64>>)
    ensures
        match r {
            Some(v) => spec_parse_id_list(s@) == Some(v@),
            None => spec_parse_id_list(s@) is None,
        },
{
    let n = s.unicode_len();
    let i = skip_ws(s, 0);
    if !(i < n && s.get_char(i) == '[') {
        return None;
    }
    let j = skip_ws(s, i + 1);
    if j < n && s.get_char(j) == ']' {
        let e = skip_ws(s, j + 1);
        if e == n {
            let out: Vec<u64> = Vec::new();
            proof {
                assert(out@ =~= Seq::<u64>::empty());
            }
            Some(out)
        } else {
            None
        }
    } else {
        scan_id_items(s, i + 1)
    }
}

// ---------------------------------------------------------------------------
// the update body
// ---------------------------------------------------------------------------

/// Text that can stand inside a JSON string without escaping: no quote, no
/// backslash, no control character.
pub open spec fn json_plain_text(s: Seq<char>) -> bool {
    forall|i: int|
        0 <= i < s.len() ==> ((#[trigger] s[i]) != '"' && s[i] != '\\' && s[i] as u32 >= 32)
}

pub fn is_json_plain(s: &str) -> (r: bool)
    ensures
        r == json_plain_text(s@),
{
    let n = s.unicode_len();
    let mut i: usize = 0;
    while i < n
        invariant
            n == s@.len(),
            0 <= i <= n,
            forall|t: int|
                0 <= t < i ==> ((#[trigger] s@[t]) != '"' && s@[t] != '\\' && s@[t] as u32 >= 32),
        decreases n - i,
    {
        let c = s.get_char(i);
        if c == '"' || c == '\\' || (c as u32) < 32 {
            return false;
        }
        i = i + 1;
    }
    true
}

/// The JSON body of a record update: the subdomain, the target, and a TTL
/// fixed at zero, in this exact member order.
pub open spec fn spec_update_body(sub: Seq<char>, target: Seq<char>) -> Seq<char> {
    "{\"subDomain\":\""@ + sub + "\",\"target\":\""@ + target + "\",\"ttl\":0}"@
}

/// Renders the update body; the result is the exact byte string that is
/// both signed and transmitted.  The two text arguments must need no JSON
/// escaping, which the caller checks with [`is_json_plain`].
pub fn update_body(sub: &str, target: &str) -> (r: String)
    requires
        json_plain_text(sub@),
        json_plain_text(target@),
    ensures
        r@ == spec_update_body(sub@, target@),
{
    let mut b: String = "{\"subDomain\":\"".to_owned();
    b.append(sub);
    b.append("\",\"target\":\"");
    b.append(target);
    b.append("\",\"ttl\":0}");
    proof {
        assert(b@ =~= spec_update_body(sub@, target@));
    }
    b
}

/// Reading the rendered body back: the `subDomain` and `target` members
/// yield exactly the texts the body was built from, the numeric `ttl`
/// member is no string member, and no other key is present.
#[verifier::rlimit(100)]
pub proof fn lemma_update_body_reads_back(sub: Seq<char>, target: Seq<char>, key: Seq<char>)
    requires
        json_plain_text(sub),
        json_plain_text(target),
    ensures
        spec_json_string_member(spec_update_body(sub, target), key) == (if key == "subDomain"@ {
            Some(sub)
        } else if key == "target"@ {
            Some(target)
        } else {
            None
        }),
{
    reveal_strlit("{\"subDomain\":\"");
    reveal_strlit("\",\"target\":\"");
    reveal_strlit("\",\"ttl\":0}");
    reveal_strlit("subDomain");
    reveal_strlit("target");
    let l1 = "{\"subDomain\":\""@;
    let l2 = "\",\"target\":\""@;
    let l3 = "\",\"ttl\":0}"@;
    assert(l1 =~= seq!['{', '"', 's', 'u', 'b', 'D', 'o', 'm', 'a', 'i', 'n', '"', ':', '"']);
    assert(l2 =~= seq!['"', ',', '"', 't', 'a', 'r', 'g', 'e', 't', '"', ':', '"']);
    assert(l3 =~= seq!['"', ',', '"', 't', 't', 'l', '"', ':', '0', '}']);
    assert("subDomain"@ =~= seq!['s', 'u', 'b', 'D', 'o', 'm', 'a', 'i', 'n']);
    assert("target"@ =~= seq!['t', 'a', 'r', 'g', 'e', 't']);
    let s = spec_update_body(sub, target);
    let sl = sub.len() as int;
    let tl = target.len() as int;
    assert(s == l1 + sub + l2 + target + l3);
    assert(s.len() == 36 + sl + tl);
    assert forall|k: int| 0 <= k < 14 implies #[trigger] s[k] == l1[k] by {}
    assert forall|k: int| 14 <= k < 14 + sl implies #[trigger] s[k] == sub[k - 14] by {}
    assert forall|k: int| 14 + sl <= k < 26 + sl implies #[trigger] s[k] == l2[k - 14 - sl] by {}
    assert forall|k: int| 26 + sl <= k < 26 + sl + tl implies #[trigger] s[k] == target[k - 26
        - sl] by {}
    assert forall|k: int| 26 + sl + tl <= k < 36 + sl + tl implies #[trigger] s[k] == l3[k - 26
        - sl - tl] by {}
    // the opening brace and the first member's key
    assert(spec_skip_ws(s, 0) == 0);
    assert(spec_skip_ws(s, 1) == 1);
    lemma_scan_string_body(s, 2, 11);
    assert(s.subrange(2, 11) =~= "subDomain"@);
    assert(spec_scan_string_body(s, 2) == Some(("subDomain"@, 12int)));
    assert(spec_skip_ws(s, 12) == 12);
    assert(spec_skip_ws(s, 13) == 13);
    // the subdomain value
    lemma_scan_string_body(s, 14, 14 + sl);
    assert(s[14 + sl] == '"');
    assert(s.subrange(14, 14 + sl) =~= sub);
    assert(spec_scan_string_body(s, 14) == Some((sub, 15 + sl)));
    let acc1: Option<Seq<char>> = if key == "subDomain"@ {
        Some(sub)
    } else {
        None
    };
    assert(spec_scan_members(s, 1, key, None) == spec_scan_after_member(s, 15 + sl, key, acc1));
    // the comma and the second member's key
    assert(spec_skip_ws(s, 15 + sl) == 15 + sl);
    assert(s[15 + sl] == ',');
    assert(spec_scan_after_member(s, 15 + sl, key, acc1) == spec_scan_members(
        s,
        16 + sl,
        key,
        acc1,
    ));
    assert(spec_skip_ws(s, 16 + sl) == 16 + sl);
    assert(s[16 + sl] == '"');
    lemma_scan_string_body(s, 17 + sl, 23 + sl);
    assert(s[23 + sl] == '"');
    assert(s.subrange(17 + sl, 23 + sl) =~= "target"@);
    assert(spec_scan_string_body(s, 17 + sl) == Some(("target"@, 24 + sl)));
    assert(spec_skip_ws(s, 24 + sl) == 24 + sl);
    assert(s[24 + sl] == ':');
    assert(spec_skip_ws(s, 25 + sl) == 25 + sl);
    assert(s[25 + sl] == '"');
    // the target value
    lemma_scan_string_body(s, 26 + sl, 26 + sl + tl);
    assert(s[26 + sl + tl] == '"');
    assert(s.subrange(26 + sl, 26 + sl + tl) =~= target);
    assert(spec_scan_string_body(s, 26 + sl) == Some((target, 27 + sl + tl)));
    assert("subDomain"@ != "target"@);
    let acc2: Option<Seq<char>> = if key == "subDomain"@ {
        Some(sub)
    } else if key == "target"@ {
        Some(target)
    } else {
        None
    };
    assert(spec_scan_members(s, 16 + sl, key, acc1) == spec_scan_after_member(
        s,
        27 + sl + tl,
        key,
        acc2,
    ));
    // the comma and the numeric ttl member
    assert(spec_skip_ws(s, 27 + sl + tl) == 27 + sl + tl);
    assert(s[27 + sl + tl] == ',');
    assert(spec_scan_after_member(s, 27 + sl + tl, key, acc2) == spec_scan_members(
        s,
        28 + sl + tl,
        key,
        acc2,
    ));
    assert(spec_skip_ws(s, 28 + sl + tl) == 28 + sl + tl);
    assert(s[28 + sl + tl] == '"');
    lemma_scan_string_body(s, 29 + sl + tl, 32 + sl + tl);
    assert(s[32 + sl + tl] == '"');
    assert(spec_scan_string_body(s, 29 + sl + tl) == Some(
        (s.subrange(29 + sl + tl, 32 + sl + tl), 33 + sl + tl),
    ));
    assert(spec_skip_ws(s, 33 + sl + tl) == 33 + sl + tl);
    assert(s[33 + sl + tl] == ':');
    assert(spec_skip_ws(s, 34 + sl + tl) == 34 + sl + tl);
    assert(s[34 + sl + tl] == '0');
    assert(is_dec_digit(s[34 + sl + tl]));
    assert(s[35 + sl + tl] == '}');
    assert(spec_scan_digits(s, 35 + sl + tl) == 35 + sl + tl);
    assert(spec_scan_digits(s, 34 + sl + tl) == 35 + sl + tl);
    assert(spec_scan_members(s, 28 + sl + tl, key, acc2) == spec_scan_after_member(
        s,
        35 + sl + tl,
        key,
        acc2,
    ));
    // the closing brace and the end of the text
    assert(spec_skip_ws(s, 35 + sl + tl) == 35 + sl + tl);
    assert(spec_skip_ws(s, 36 + sl + tl) == 36 + sl + tl);
    assert(spec_scan_after_member(s, 35 + sl + tl, key, acc2) == Some(acc2));
    assert(s[1] != '}');
    assert(spec_json_string_member(s, key) == acc2);
}

} // verus!
