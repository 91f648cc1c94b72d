//! Shared text helpers: character classes, locating and splitting on a
//! separator character, decimal rendering and reading, and string equality.

use vstd::prelude::*;
use vstd::string::StringExecFns;

verus! {

broadcast use vstd::string::group_string_axioms;

// ---------------------------------------------------------------------------
// character classes
// ---------------------------------------------------------------------------

pub open spec fn is_dec_digit(c: char) -> bool {
    '0' <= c && c <= '9'
}

/// Numeric value of a decimal digit; zero for any other character.
pub open spec fn dec_val(c: char) -> nat {
    if is_dec_digit(c) {
        (c as int - '0' as int) as nat
    } else {
        0
    }
}

pub fn dec_digit(c: char) -> (r: bool)
    ensures
        r == is_dec_digit(c),
{
    '0' <= c && c <= '9'
}

pub open spec fn is_hex_digit(c: char) -> bool {
    ('0' <= c && c <= '9') || ('a' <= c && c <= 'f') || ('A' <= c && c <= 'F')
}

/// Numeric value of a hexadecimal digit; zero for any other character.
pub open spec fn hex_val(c: char) -> nat {
    if '0' <= c && c <= '9' {
        (c as int - '0' as int) as nat
    } else if 'a' <= c && c <= 'f' {
        (c as int - 'a' as int + 10) as nat
    } else if 'A' <= c && c <= 'F' {
        (c as int - 'A' as int + 10) as nat
    } else {
        0
    }
}

pub fn hex_digit(c: char) -> (r: bool)
    ensures
        r == is_hex_digit(c),
{
    ('0' <= c && c <= '9') || ('a' <= c && c <= 'f') || ('A' <= c && c <= 'F')
}

// ---------------------------------------------------------------------------
// finding and splitting on a separator
// ---------------------------------------------------------------------------

/// Index of the first occurrence of `c` in `s`, if any.
pub open spec fn spec_find(s: Seq<char>, c: char) -> Option<int>
    decreases s.len(),
{
    if s.len() == 0 {
        None
    } else if s[0] == c {
        Some(0)
    } else {
        match spec_find(s.skip(1), c) {
            None => None,
            Some(i) => Some(i + 1),
        }
    }
}

pub proof fn lemma_find_properties(s: Seq<char>, c: char)
    ensures
        match spec_find(s, c) {
            Some(i) => 0 <= i < s.len() && s[i] == c && (forall|j: int|
                0 <= j < i ==> s[j] != c),
            None => forall|j: int| 0 <= j < s.len() ==> s[j] != c,
        },
    decreases s.len(),
{
    if s.len() == 0 {
    } else if s[0] == c {
    } else {
        lemma_find_properties(s.skip(1), c);
        assert forall|j: int| 1 <= j < s.len() implies s.skip(1)[j - 1] == s[j] by {}
    }
}

pub proof fn lemma_find_at(s: Seq<char>, c: char, i: int)
    requires
        0 <= i < s.len(),
        s[i] == c,
        forall|j: int| 0 <= j < i ==> s[j] != c,
    ensures
        spec_find(s, c) == Some(i),
    decreases s.len(),
{
    if i == 0 {
    } else {
        assert(s[0] != c);
        lemma_find_at(s.skip(1), c, i - 1);
    }
}

pub proof fn lemma_find_absent(s: Seq<char>, c: char)
    requires
        forall|j: int| 0 <= j < s.len() ==> s[j] != c,
    ensures
        spec_find(s, c) is None,
    decreases s.len(),
{
    if s.len() == 0 {
    } else {
        lemma_find_absent(s.skip(1), c);
    }
}

/// First occurrence of `c` in `s`, walking characters from the front.
pub fn find_char(s: &str, c: char) -> (r: Option<usize>)
    ensures
        match r {
            Some(i) => spec_find(s@, c) == Some(i as int),
            None => spec_find(s@, c) is None,
        },
{
    let n = s.unicode_len();
    let mut i: usize = 0;
    while i < n
        invariant
            n == s@.len(),
            0 <= i <= n,
            forall|j: int| 0 <= j < i ==> s@[j] != c,
        decreases n - i,
    {
        if s.get_char(i) == c {
            proof {
                lemma_find_at(s@, c, i as int);
            }
            return Some(i);
        }
        i = i + 1;
    }
    proof {
        lemma_find_absent(s@, c);
    }
    None
}

/// Pieces of `s` between occurrences of the separator `c`; the separator
/// itself appears in no piece, and `k` separators yield `k + 1` pieces.
pub open spec fn spec_split(s: Seq<char>, c: char) -> Seq<Seq<char>>
    decreases s.len(),
{
    match spec_find(s, c) {
        None => seq![s],
        Some(i) => if 0 <= i < s.len() {
            seq![s.subrange(0, i)] + spec_split(s.subrange(i + 1, s.len() as int), c)
        } else {
            seq![s]
        },
    }
}

pub fn split_char(s: &str, c: char) -> (r: Vec<String>)
    ensures
        r.deep_view() == spec_split(s@, c),
    decreases s@.len(),
{
    let n = s.unicode_len();
    match find_char(s, c) {
        None => {
            let mut v: Vec<String> = Vec::new();
            v.push(s.to_owned());
            proof {
                assert(v.deep_view() =~= spec_split(s@, c));
            }
            v
        },
        Some(i) => {
            proof {
                lemma_find_properties(s@, c);
            }
            let head = s.substring_char(0, i);
            let tail = s.substring_char(i + 1, n);
            let rest = split_char(tail, c);
            let mut v: Vec<String> = Vec::new();
            v.push(head.to_owned());
            let mut k: usize = 0;
            while k < rest.len()
                invariant
                    0 <= k <= rest.len(),
                    v.len() == k + 1,
                    v.deep_view()[0] == head@,
                    forall|j: int| 0 <= j < k ==> v.deep_view()[j + 1] == rest.deep_view()[j],
                decreases rest.len() - k,
            {
                let piece = &rest[k];
                v.push(piece.clone());
                k = k + 1;
            }
            proof {
                assert(v.deep_view() =~= seq![head@] + rest.deep_view());
                assert(v.deep_view() =~= spec_split(s@, c));
            }
            v
        },
    }
}

pub proof fn lemma_split_no_sep(p: Seq<char>, c: char)
    requires
        forall|j: int| 0 <= j < p.len() ==> p[j] != c,
    ensures
        spec_split(p, c) == seq![p],
{
    lemma_find_absent(p, c);
}

pub proof fn lemma_split_on_sep(p: Seq<char>, rest: Seq<char>, c: char)
    requires
        forall|j: int| 0 <= j < p.len() ==> p[j] != c,
    ensures
        spec_split(p + seq![c] + rest, c) == seq![p] + spec_split(rest, c),
{
    let s = p + seq![c] + rest;
    lemma_find_at(s, c, p.len() as int);
    assert(s.subrange(0, p.len() as int) =~= p);
    assert(s.subrange(p.len() as int + 1, s.len() as int) =~= rest);
    assert(spec_split(s, c) == seq![p] + spec_split(rest, c));
}

// ---------------------------------------------------------------------------
// decimal values
// ---------------------------------------------------------------------------

/// Value of a run of decimal digits, most significant first.
pub open spec fn spec_dec_value(s: Seq<char>) -> nat
    decreases s.len(),
{
    if s.len() == 0 {
        0
    } else {
        spec_dec_value(s.drop_last()) * 10 + dec_val(s.last())
    }
}

pub open spec fn all_dec_digits(s: Seq<char>) -> bool {
    forall|i: int| 0 <= i < s.len() ==> is_dec_digit(s[i])
}

pub open spec fn pow10(k: nat) -> nat
    decreases k,
{
    if k == 0 {
        1
    } else {
        10 * pow10((k - 1) as nat)
    }
}

pub proof fn lemma_pow10_vals()
    ensures
        pow10(0) == 1,
        pow10(1) == 10,
        pow10(2) == 100,
        pow10(3) == 1000,
{
    assert(pow10(0) == 1);
    assert(pow10(1) == 10);
    assert(pow10(2) == 100);
    assert(pow10(3) == 1000);
}

pub proof fn lemma_pow10_pos(k: nat)
    ensures
        pow10(k) >= 1,
    decreases k,
{
    if k > 0 {
        lemma_pow10_pos((k - 1) as nat);
    }
}

pub proof fn lemma_dec_value_append(p: Seq<char>, e: Seq<char>)
    ensures
        spec_dec_value(p + e) == spec_dec_value(p) * pow10(e.len()) + spec_dec_value(e),
    decreases e.len(),
{
    if e.len() == 0 {
        assert(p + e =~= p);
        assert(spec_dec_value(p) * 1 == spec_dec_value(p)) by (nonlinear_arith);
    } else {
        lemma_dec_value_append(p, e.drop_last());
        assert((p + e).drop_last() =~= p + e.drop_last());
        assert((p + e).last() == e.last());
        let vp = spec_dec_value(p);
        let ve = spec_dec_value(e.drop_last());
        let k = e.drop_last().len();
        assert((vp * pow10(k) + ve) * 10 + dec_val(e.last()) == vp * (10 * pow10(k)) + (ve * 10
            + dec_val(e.last()))) by (nonlinear_arith);
        assert(pow10(e.len()) == 10 * pow10(k)) by {
            assert(e.len() == k + 1);
            assert(pow10((k + 1) as nat) == 10 * pow10(k));
        }
    }
}

pub proof fn lemma_dec_value_prefix_le(p: Seq<char>, e: Seq<char>)
    ensures
        spec_dec_value(p + e) >= spec_dec_value(p),
{
    lemma_dec_value_append(p, e);
    lemma_pow10_pos(e.len());
    let vp = spec_dec_value(p);
    let pw = pow10(e.len());
    assert(vp * pw >= vp * 1) by (nonlinear_arith)
        requires pw >= 1,
    ;
}

pub proof fn lemma_dec_value_bound(s: Seq<char>)
    ensures
        spec_dec_value(s) < pow10(s.len()),
    decreases s.len(),
{
    if s.len() == 0 {
    } else {
        lemma_dec_value_bound(s.drop_last());
        let k = s.drop_last().len();
        assert(dec_val(s.last()) <= 9);
        assert(spec_dec_value(s.drop_last()) * 10 + 9 < pow10(k) * 10) by (nonlinear_arith)
            requires
                spec_dec_value(s.drop_last()) < pow10(k),
        ;
        assert(pow10(s.len()) == 10 * pow10(k));
    }
}

/// Canonical decimal rendering of a number: digits only, no sign, no
/// leading zero except for zero itself.
pub open spec fn spec_dec_digit_char(d: nat) -> char {
    if d == 0 {
        '0'
    } else if d == 1 {
        '1'
    } else if d == 2 {
        '2'
    } else if d == 3 {
        '3'
    } else if d == 4 {
        '4'
    } else if d == 5 {
        '5'
    } else if d == 6 {
        '6'
    } else if d == 7 {
        '7'
    } else if d == 8 {
        '8'
    } else {
        '9'
    }
}

pub open spec fn spec_dec_string(n: nat) -> Seq<char>
    decreases n,
{
    if n < 10 {
        seq![spec_dec_digit_char(n)]
    } else {
        spec_dec_string(n / 10).push(spec_dec_digit_char(n % 10))
    }
}

pub proof fn lemma_dec_string_digits(n: nat)
    ensures
        spec_dec_string(n).len() >= 1,
        all_dec_digits(spec_dec_string(n)),
    decreases n,
{
    if n < 10 {
        assert(is_dec_digit(spec_dec_digit_char(n)));
    } else {
        lemma_dec_string_digits(n / 10);
        assert(is_dec_digit(spec_dec_digit_char(n % 10)));
        assert forall|i: int| 0 <= i < spec_dec_string(n).len() implies is_dec_digit(
            spec_dec_string(n)[i],
        ) by {
            if i < spec_dec_string(n / 10).len() {
                assert(spec_dec_string(n)[i] == spec_dec_string(n / 10)[i]);
            }
        }
    }
}

/// Reading back a canonical rendering gives the number it came from.
pub proof fn lemma_dec_string_value(n: nat)
    ensures
        spec_dec_value(spec_dec_string(n)) == n,
    decreases n,
{
    if n < 10 {
        let s = spec_dec_string(n);
        assert(s == seq![spec_dec_digit_char(n)]);
        assert(s.len() == 1);
        assert(s.last() == spec_dec_digit_char(n));
        assert(s.drop_last() =~= Seq::<char>::empty());
        assert(spec_dec_value(Seq::<char>::empty()) == 0);
        assert(spec_dec_value(s) == spec_dec_value(s.drop_last()) * 10 + dec_val(s.last()));
        assert(dec_val(spec_dec_digit_char(n)) == n);
    } else {
        lemma_dec_string_value(n / 10);
        let s = spec_dec_string(n);
        assert(s == spec_dec_string(n / 10).push(spec_dec_digit_char(n % 10)));
        assert(s.len() > 0);
        assert(s.last() == spec_dec_digit_char(n % 10));
        assert(s.drop_last() =~= spec_dec_string(n / 10));
        assert(spec_dec_value(s) == spec_dec_value(s.drop_last()) * 10 + dec_val(s.last()));
        assert(dec_val(spec_dec_digit_char(n % 10)) == n % 10);
        assert(spec_dec_value(s) == (n / 10) * 10 + n % 10);
        assert((n / 10) * 10 + n % 10 == n);
    }
}

pub fn dec_digit_str(d: u64) -> (r: &'static str)
    requires
        d < 10,
    ensures
        r@ =~= seq![spec_dec_digit_char(d as nat)],
{
    proof {
        reveal_strlit("0");
        reveal_strlit("1");
        reveal_strlit("2");
        reveal_strlit("3");
        reveal_strlit("4");
        reveal_strlit("5");
        reveal_strlit("6");
        reveal_strlit("7");
        reveal_strlit("8");
        reveal_strlit("9");
    }
    if d == 0 {
        "0"
    } else if d == 1 {
        "1"
    } else if d == 2 {
        "2"
    } else if d == 3 {
        "3"
    } else if d == 4 {
        "4"
    } else if d == 5 {
        "5"
    } else if d == 6 {
        "6"
    } else if d == 7 {
        "7"
    } else if d == 8 {
        "8"
    } else {
        "9"
    }
}

pub fn u64_to_string(n: u64) -> (r: String)
    ensures
        r@ == spec_dec_string(n as nat),
    decreases n,
{
    let d: u64 = n % 10;
    let ds = dec_digit_str(d);
    if n < 10 {
        ds.to_owned()
    } else {
        let mut s = u64_to_string(n / 10);
        s.append(ds);
        proof {
            assert(s@ =~= spec_dec_string((n / 10) as nat).push(spec_dec_digit_char((n % 10) as nat)));
        }
        s
    }
}

pub proof fn lemma_dec_string_len(n: nat, k: nat)
    requires
        k >= 1,
        n < pow10(k),
    ensures
        spec_dec_string(n).len() <= k,
    decreases n,
{
    if n < 10 {
    } else {
        assert(pow10(k) == 10 * pow10((k - 1) as nat));
        assert(n / 10 < pow10((k - 1) as nat));
        lemma_pow10_vals();
        if k == 1 {
            lemma_pow10_pos(0);
            assert(false);
        }
        lemma_dec_string_len(n / 10, (k - 1) as nat);
    }
}

/// Number read from a string holding nothing but decimal digits; `None` on
/// an empty string, any other character, or a value above `u64::MAX`.
pub open spec fn spec_parse_u64(s: Seq<char>) -> Option<u64> {
    if s.len() >= 1 && all_dec_digits(s) && spec_dec_value(s) <= u64::MAX {
        Some(spec_dec_value(s) as u64)
    } else {
        None
    }
}

pub fn parse_u64(s: &str) -> (r: Option<u64>)
    ensures
        r == spec_parse_u64(s@),
{
    let n = s.unicode_len();
    if n == 0 {
        return None;
    }
    let mut v: u64 = 0;
    let mut i: usize = 0;
    while i < n
        invariant
            n == s@.len(),
            0 <= i <= n,
            forall|j: int| 0 <= j < i ==> is_dec_digit(s@[j]),
            v as nat == spec_dec_value(s@.subrange(0, i as int)),
        decreases n - i,
    {
        let c = s.get_char(i);
        if !dec_digit(c) {
            assert(!all_dec_digits(s@));
            return None;
        }
        let d: u64 = (c as u32 as u64) - ('0' as u32 as u64);
        assert(d as nat == dec_val(c));
        if v > (u64::MAX - d) / 10 {
            proof {
                let pre = s@.subrange(0, i as int + 1);
                assert(pre.drop_last() =~= s@.subrange(0, i as int));
                assert(pre.last() == s@[i as int]);
                assert(spec_dec_value(pre) == v as nat * 10 + d as nat);
                assert(v as nat * 10 + d as nat > u64::MAX) by (nonlinear_arith)
                    requires
                        v > (u64::MAX - d) / 10,
                        d < 10,
                        v <= u64::MAX,
                        d <= u64::MAX,
                ;
                assert(s@ =~= pre + s@.subrange(i as int + 1, n as int));
                lemma_dec_value_prefix_le(pre, s@.subrange(i as int + 1, n as int));
            }
            return None;
        }
        proof {
            assert(v as nat * 10 + d as nat <= u64::MAX) by (nonlinear_arith)
                requires
                    v <= (u64::MAX - d) / 10,
                    d < 10,
            ;
        }
        let next: u64 = v * 10 + d;
        proof {
            let pre = s@.subrange(0, i as int + 1);
            assert(pre.drop_last() =~= s@.subrange(0, i as int));
            assert(pre.last() == s@[i as int]);
        }
        v = next;
        i = i + 1;
    }
    proof {
        assert(s@.subrange(0, n as int) =~= s@);
    }
    Some(v)
}

// ---------------------------------------------------------------------------
// string equality
// ---------------------------------------------------------------------------

pub fn str_eq(a: &str, b: &str) -> (r: bool)
    ensures
        r == (a@ == b@),
{
    let na = a.unicode_len();
    let nb = b.unicode_len();
    if na != nb {
        return false;
    }
    let mut i: usize = 0;
    while i < na
        invariant
            na == a@.len(),
            nb == b@.len(),
            na == nb,
            0 <= i <= na,
            forall|j: int| 0 <= j < i ==> a@[j] == b@[j],
        decreases na - i,
    {
        if a.get_char(i) != b.get_char(i) {
            return false;
        }
        i = i + 1;
    }
    proof {
        assert(a@ =~= b@);
    }
    true
}

} // verus!
