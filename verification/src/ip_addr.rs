//! Typed IP addresses, with parsing from and rendering to their usual
//! textual forms.
//!
//! An IPv4 address is four dotted decimal octets; an IPv6 address is up to
//! eight colon-separated hexadecimal groups, one run of zero groups
//! optionally compressed as `::`.  Rendering is canonical: no leading
//! zeros, and IPv6 groups written in full, lowercase, without compression.

use vstd::prelude::*;

use crate::errors::PublicIpRetrieverError;
use crate::text::{
    all_dec_digits, hex_digit, is_dec_digit, is_hex_digit, hex_val, spec_dec_value,
    spec_dec_string, spec_split, split_char, lemma_dec_value_bound, lemma_dec_string_len,
    lemma_dec_string_digits, lemma_dec_string_value, lemma_split_no_sep, lemma_split_on_sep,
    parse_u64, u64_to_string,
};

verus! {

// ---------------------------------------------------------------------------
// address types
// ---------------------------------------------------------------------------

#[derive(Clone, Copy, Debug, PartialEq, Eq, Structural)]
pub struct Ipv4Address {
    pub a: u8,
    pub b: u8,
    pub c: u8,
    pub d: u8,
}

impl Ipv4Address {
    pub fn new(a: u8, b: u8, c: u8, d: u8) -> (r: Ipv4Address)
        ensures
            r == (Ipv4Address { a, b, c, d }),
    {
        Ipv4Address { a, b, c, d }
    }
}

#[derive(Clone, Copy, Debug, PartialEq, Eq, Structural)]
pub struct Ipv6Address {
    pub g0: u16,
    pub g1: u16,
    pub g2: u16,
    pub g3: u16,
    pub g4: u16,
    pub g5: u16,
    pub g6: u16,
    pub g7: u16,
}

impl Ipv6Address {
    /// The eight groups, most significant first.
    pub open spec fn groups(self) -> Seq<u16> {
        seq![self.g0, self.g1, self.g2, self.g3, self.g4, self.g5, self.g6, self.g7]
    }

    pub fn new(g0: u16, g1: u16, g2: u16, g3: u16, g4: u16, g5: u16, g6: u16, g7: u16) -> (r:
        Ipv6Address)
        ensures
            r == (Ipv6Address { g0, g1, g2, g3, g4, g5, g6, g7 }),
    {
        Ipv6Address { g0, g1, g2, g3, g4, g5, g6, g7 }
    }
}

/// Which kind of address record is being handled.
#[derive(Clone, Copy, Debug, PartialEq, Eq, Structural)]
pub enum IpVersion {
    V4,
    V6,
}

/// An address of either version.
#[derive(Clone, Copy, Debug, PartialEq, Eq, Structural)]
pub enum IpAddress {
    V4(Ipv4Address),
    V6(Ipv6Address),
}

impl IpAddress {
    pub open spec fn spec_version(self) -> IpVersion {
        match self {
            IpAddress::V4(_) => IpVersion::V4,
            IpAddress::V6(_) => IpVersion::V6,
        }
    }

    pub fn version(&self) -> (r: IpVersion)
        ensures
            r == self.spec_version(),
    {
        match self {
            IpAddress::V4(_) => IpVersion::V4,
            IpAddress::V6(_) => IpVersion::V6,
        }
    }
}

// ---------------------------------------------------------------------------
// IPv4 text
// ---------------------------------------------------------------------------

/// A valid dotted-decimal octet: one to three digits valuing at most 255.
pub open spec fn valid_octet_text(p: Seq<char>) -> bool {
    1 <= p.len() <= 3 && all_dec_digits(p) && spec_dec_value(p) <= 255
}

/// The address denoted by dotted-decimal text, if it is well formed.
pub open spec fn spec_parse_ipv4(s: Seq<char>) -> Option<Ipv4Address> {
    let parts = spec_split(s, '.');
    if parts.len() == 4 && valid_octet_text(parts[0]) && valid_octet_text(parts[1])
        && valid_octet_text(parts[2]) && valid_octet_text(parts[3]) {
        Some(
            Ipv4Address {
                a: spec_dec_value(parts[0]) as u8,
                b: spec_dec_value(parts[1]) as u8,
                c: spec_dec_value(parts[2]) as u8,
                d: spec_dec_value(parts[3]) as u8,
            },
        )
    } else {
        None
    }
}

fn octet_value(p: &str) -> (r: Option<u8>)
    ensures
        r matches Some(v) ==> valid_octet_text(p@) && spec_dec_value(p@) == v as nat,
        r is None ==> !valid_octet_text(p@),
{
    let n = p.unicode_len();
    if n == 0 || n > 3 {
        return None;
    }
    match parse_u64(p) {
        None => {
            proof {
                lemma_dec_value_bound(p@);
                crate::text::lemma_pow10_vals();
                if all_dec_digits(p@) {
                    assert(spec_dec_value(p@) < 1000);
                }
            }
            None
        },
        Some(v) => {
            if v <= 255 {
                Some(v as u8)
            } else {
                None
            }
        },
    }
}

/// Parses an IPv4 address from dotted-decimal text; fails exactly when the
/// text is not four valid octets.
pub fn parse_ipv4_str(ip: &str) -> (r: Result<Ipv4Address, PublicIpRetrieverError>)
    ensures
        r matches Ok(a) ==> spec_parse_ipv4(ip@) == Some(a),
        r is Err ==> spec_parse_ipv4(ip@) is None,
        r matches Err(e) ==> e == PublicIpRetrieverError::Ip4ParseError,
{
    let parts = split_char(ip, '.');
    if parts.len() != 4 {
        return Err(PublicIpRetrieverError::Ip4ParseError);
    }
    let oa = octet_value(parts[0].as_str());
    let ob = octet_value(parts[1].as_str());
    let oc = octet_value(parts[2].as_str());
    let od = octet_value(parts[3].as_str());
    proof {
        assert(parts.deep_view()[0] == parts@[0]@);
        assert(parts.deep_view()[1] == parts@[1]@);
        assert(parts.deep_view()[2] == parts@[2]@);
        assert(parts.deep_view()[3] == parts@[3]@);
    }
    match (oa, ob, oc, od) {
        (Some(a), Some(b), Some(c), Some(d)) => Ok(Ipv4Address { a, b, c, d }),
        _ => Err(PublicIpRetrieverError::Ip4ParseError),
    }
}

/// Canonical dotted-decimal rendering.
pub open spec fn spec_format_ipv4(a: Ipv4Address) -> Seq<char> {
    spec_dec_string(a.a as nat) + seq!['.'] + spec_dec_string(a.b as nat) + seq!['.']
        + spec_dec_string(a.c as nat) + seq!['.'] + spec_dec_string(a.d as nat)
}

pub fn format_ipv4(a: &Ipv4Address) -> (r: String)
    ensures
        r@ == spec_format_ipv4(*a),
{
    let mut out = u64_to_string(a.a as u64);
    out.append(".");
    let sb = u64_to_string(a.b as u64);
    out.append(sb.as_str());
    out.append(".");
    let sc = u64_to_string(a.c as u64);
    out.append(sc.as_str());
    out.append(".");
    let sd = u64_to_string(a.d as u64);
    out.append(sd.as_str());
    proof {
        reveal_strlit(".");
        assert(out@ =~= spec_format_ipv4(*a));
    }
    out
}

proof fn lemma_octet_string_valid(n: nat)
    requires
        n <= 255,
    ensures
        valid_octet_text(spec_dec_string(n)),
        spec_dec_value(spec_dec_string(n)) == n,
        forall|j: int| 0 <= j < spec_dec_string(n).len() ==> spec_dec_string(n)[j] != '.',
{
    lemma_dec_string_digits(n);
    lemma_dec_string_value(n);
    crate::text::lemma_pow10_vals();
    lemma_dec_string_len(n, 3);
    assert forall|j: int| 0 <= j < spec_dec_string(n).len() implies spec_dec_string(n)[j]
        != '.' by {
        assert(is_dec_digit(spec_dec_string(n)[j]));
    }
}

/// Rendering an address and reading the text back yields the address: the
/// two textual forms are inverse on every value.
#[verifier::rlimit(100)]
pub proof fn lemma_ipv4_round_trip(a: Ipv4Address)
    ensures
        spec_parse_ipv4(spec_format_ipv4(a)) == Some(a),
{
    let sa = spec_dec_string(a.a as nat);
    let sb = spec_dec_string(a.b as nat);
    let sc = spec_dec_string(a.c as nat);
    let sd = spec_dec_string(a.d as nat);
    lemma_octet_string_valid(a.a as nat);
    lemma_octet_string_valid(a.b as nat);
    lemma_octet_string_valid(a.c as nat);
    lemma_octet_string_valid(a.d as nat);
    let s = spec_format_ipv4(a);
    let tail1 = sb + seq!['.'] + sc + seq!['.'] + sd;
    let tail2 = sc + seq!['.'] + sd;
    assert(s =~= sa + seq!['.'] + tail1);
    lemma_split_on_sep(sa, tail1, '.');
    assert(tail1 =~= sb + seq!['.'] + tail2);
    lemma_split_on_sep(sb, tail2, '.');
    assert(tail2 =~= sc + seq!['.'] + sd);
    lemma_split_on_sep(sc, sd, '.');
    lemma_split_no_sep(sd, '.');
    let parts = spec_split(s, '.');
    assert(parts =~= seq![sa, sb, sc, sd]);
}

// ---------------------------------------------------------------------------
// IPv6 text
// ---------------------------------------------------------------------------

pub open spec fn all_hex_digits(s: Seq<char>) -> bool {
    forall|i: int| 0 <= i < s.len() ==> is_hex_digit(s[i])
}

/// Value of a run of hexadecimal digits, most significant first.
pub open spec fn spec_hex_value(s: Seq<char>) -> nat
    decreases s.len(),
{
    if s.len() == 0 {
        0
    } else {
        spec_hex_value(s.drop_last()) * 16 + hex_val(s.last())
    }
}

pub open spec fn pow16(k: nat) -> nat
    decreases k,
{
    if k == 0 {
        1
    } else {
        16 * pow16((k - 1) as nat)
    }
}

pub proof fn lemma_pow16_vals()
    ensures
        pow16(0) == 1,
        pow16(1) == 16,
        pow16(2) == 256,
        pow16(3) == 4096,
        pow16(4) == 65536,
{
    assert(pow16(0) == 1);
    assert(pow16(1) == 16);
    assert(pow16(2) == 256);
    assert(pow16(3) == 4096);
    assert(pow16(4) == 65536);
}

pub proof fn lemma_hex_value_bound(s: Seq<char>)
    ensures
        spec_hex_value(s) < pow16(s.len()),
    decreases s.len(),
{
    if s.len() == 0 {
    } else {
        lemma_hex_value_bound(s.drop_last());
        let k = s.drop_last().len();
        assert(hex_val(s.last()) <= 15);
        assert(spec_hex_value(s.drop_last()) * 16 + 15 < pow16(k) * 16) by (nonlinear_arith)
            requires
                spec_hex_value(s.drop_last()) < pow16(k),
        ;
        assert(pow16(s.len()) == 16 * pow16(k));
    }
}

/// A valid colon-separated group: one to four hex digits.
pub open spec fn valid_group_text(p: Seq<char>) -> bool {
    1 <= p.len() <= 4 && all_hex_digits(p)
}

pub open spec fn valid_groups(parts: Seq<Seq<char>>) -> bool {
    forall|i: int| 0 <= i < parts.len() ==> valid_group_text(parts[i])
}

pub open spec fn group_values(parts: Seq<Seq<char>>) -> Seq<u16> {
    Seq::new(parts.len(), |i: int| spec_hex_value(parts[i]) as u16)
}

/// Index of the first `::` in `s`, if any.
pub open spec fn spec_find_dc(s: Seq<char>) -> Option<int>
    decreases s.len(),
{
    if s.len() < 2 {
        None
    } else if s[0] == ':' && s[1] == ':' {
        Some(0)
    } else {
        match spec_find_dc(s.skip(1)) {
            None => None,
            Some(i) => Some(i + 1),
        }
    }
}

pub proof fn lemma_find_dc_at(s: Seq<char>, i: int)
    requires
        0 <= i,
        i + 1 < s.len(),
        s[i] == ':',
        s[i + 1] == ':',
        forall|j: int| 0 <= j < i ==> !((#[trigger] s[j]) == ':' && s[j + 1] == ':'),
    ensures
        spec_find_dc(s) == Some(i),
    decreases s.len(),
{
    if i == 0 {
    } else {
        assert(!(s[0] == ':' && s[1] == ':'));
        lemma_find_dc_at(s.skip(1), i - 1);
    }
}

pub proof fn lemma_find_dc_absent(s: Seq<char>)
    requires
        forall|j: int| 0 <= j && j + 1 < s.len() ==> !((#[trigger] s[j]) == ':' && s[j + 1] == ':'),
    ensures
        spec_find_dc(s) is None,
    decreases s.len(),
{
    if s.len() < 2 {
    } else {
        assert(!(s[0] == ':' && s[1] == ':'));
        lemma_find_dc_absent(s.skip(1));
    }
}

pub proof fn lemma_find_dc_properties(s: Seq<char>)
    ensures
        match spec_find_dc(s) {
            Some(i) => 0 <= i && i + 1 < s.len() && s[i] == ':' && s[i + 1] == ':',
            None => forall|j: int| 0 <= j && j + 1 < s.len() ==> !((#[trigger] s[j]) == ':' && s[j + 1] == ':'),
        },
    decreases s.len(),
{
    if s.len() < 2 {
    } else if s[0] == ':' && s[1] == ':' {
    } else {
        lemma_find_dc_properties(s.skip(1));
        match spec_find_dc(s.skip(1)) {
            Some(i) => {
                assert(s.skip(1)[i] == s[i + 1]);
                assert(s.skip(1)[i + 1] == s[i + 2]);
            },
            None => {
                assert forall|j: int| 0 <= j && j + 1 < s.len() implies !((#[trigger] s[j]) == ':'
                    && s[j + 1] == ':') by {
                    if j >= 1 {
                        assert(s.skip(1)[j - 1] == s[j]);
                        assert(s.skip(1)[j] == s[j + 1]);
                    }
                }
            },
        }
    }
}

fn find_double_colon(s: &str) -> (r: Option<usize>)
    ensures
        match r {
            Some(i) => spec_find_dc(s@) == Some(i as int),
            None => spec_find_dc(s@) is None,
        },
{
    let n = s.unicode_len();
    if n < 2 {
        proof {
            lemma_find_dc_absent(s@);
        }
        return None;
    }
    let mut i: usize = 0;
    while i < n - 1
        invariant
            n == s@.len(),
            2 <= n,
            0 <= i <= n - 1,
            forall|j: int| 0 <= j < i ==> !((#[trigger] s@[j]) == ':' && s@[j + 1] == ':'),
        decreases n - i,
    {
        if s.get_char(i) == ':' && s.get_char(i + 1) == ':' {
            proof {
                lemma_find_dc_at(s@, i as int);
            }
            return Some(i);
        }
        i = i + 1;
    }
    proof {
        lemma_find_dc_absent(s@);
    }
    None
}

fn hex_group_value(p: &str) -> (r: Option<u16>)
    ensures
        r matches Some(v) ==> valid_group_text(p@) && spec_hex_value(p@) == v as nat,
        r is None ==> !valid_group_text(p@),
{
    let n = p.unicode_len();
    if n == 0 || n > 4 {
        return None;
    }
    let mut v: u32 = 0;
    let mut i: usize = 0;
    while i < n
        invariant
            n == p@.len(),
            1 <= n <= 4,
            0 <= i <= n,
            forall|j: int| 0 <= j < i ==> is_hex_digit(p@[j]),
            v as nat == spec_hex_value(p@.subrange(0, i as int)),
        decreases n - i,
    {
        let c = p.get_char(i);
        if !hex_digit(c) {
            assert(!all_hex_digits(p@));
            return None;
        }
        let d: u32 = if '0' <= c && c <= '9' {
            (c as u32) - ('0' as u32)
        } else if 'a' <= c && c <= 'f' {
            (c as u32) - ('a' as u32) + 10
        } else {
            (c as u32) - ('A' as u32) + 10
        };
        proof {
            assert(d as nat == hex_val(c));
            lemma_hex_value_bound(p@.subrange(0, i as int));
            lemma_pow16_vals();
            assert(pow16((i as nat)) <= 4096) by {
                if i == 0 {
                } else if i == 1 {
                } else if i == 2 {
                } else {
                    assert(i == 3);
                }
            }
            assert(v < 4096);
        }
        v = v * 16 + d;
        proof {
            let pre = p@.subrange(0, i as int + 1);
            assert(pre.drop_last() =~= p@.subrange(0, i as int));
            assert(pre.last() == p@[i as int]);
        }
        i = i + 1;
    }
    proof {
        assert(p@.subrange(0, n as int) =~= p@);
        lemma_hex_value_bound(p@);
        lemma_pow16_vals();
    }
    Some(v as u16)
}

/// Groups of one side of a `::`: empty text means no groups at all.
pub open spec fn spec_side_groups(side: Seq<char>) -> Option<Seq<u16>> {
    if side.len() == 0 {
        Some(Seq::<u16>::empty())
    } else {
        let parts = spec_split(side, ':');
        if valid_groups(parts) {
            Some(group_values(parts))
        } else {
            None
        }
    }
}

fn side_groups(side: &str) -> (r: Option<Vec<u16>>)
    ensures
        r matches Some(v) ==> spec_side_groups(side@) == Some(v@),
        r is None ==> spec_side_groups(side@) is None,
{
    let n = side.unicode_len();
    if n == 0 {
        let v: Vec<u16> = Vec::new();
        proof {
            assert(v@ =~= Seq::<u16>::empty());
        }
        return Some(v);
    }
    let parts = split_char(side, ':');
    let mut vals: Vec<u16> = Vec::new();
    let mut i: usize = 0;
    while i < parts.len()
        invariant
            side@.len() > 0,
            parts.deep_view() == spec_split(side@, ':'),
            0 <= i <= parts@.len(),
            vals@.len() == i,
            forall|j: int| 0 <= j < i ==> valid_group_text(parts.deep_view()[j]),
            forall|j: int| 0 <= j < i ==> vals@[j] as nat == spec_hex_value(parts.deep_view()[j]),
        decreases parts@.len() - i,
    {
        proof {
            assert(parts.deep_view()[i as int] == parts@[i as int]@);
        }
        match hex_group_value(parts[i].as_str()) {
            None => {
                proof {
                    assert(!valid_group_text(spec_split(side@, ':')[i as int]));
                    assert(!valid_groups(spec_split(side@, ':')));
                }
                return None;
            },
            Some(v) => {
                vals.push(v);
            },
        }
        i = i + 1;
    }
    proof {
        assert(valid_groups(parts.deep_view()));
        assert(vals@ =~= group_values(parts.deep_view()));
    }
    Some(vals)
}

pub open spec fn ipv6_from_groups(g: Seq<u16>) -> Ipv6Address
    recommends
        g.len() == 8,
{
    Ipv6Address {
        g0: g[0],
        g1: g[1],
        g2: g[2],
        g3: g[3],
        g4: g[4],
        g5: g[5],
        g6: g[6],
        g7: g[7],
    }
}

/// The address denoted by IPv6 text: eight colon-separated hex groups, or
/// fewer with a single `::` standing for the missing run of zero groups.
pub open spec fn spec_parse_ipv6(s: Seq<char>) -> Option<Ipv6Address> {
    match spec_find_dc(s) {
        None => {
            let parts = spec_split(s, ':');
            if parts.len() == 8 && valid_groups(parts) {
                Some(ipv6_from_groups(group_values(parts)))
            } else {
                None
            }
        },
        Some(i) => if 0 <= i && i + 2 <= s.len() {
            let left = spec_side_groups(s.subrange(0, i));
            let right = spec_side_groups(s.subrange(i + 2, s.len() as int));
            if left is Some && right is Some {
                let l = left.unwrap();
                let r = right.unwrap();
                if l.len() + r.len() <= 7 {
                    Some(
                        ipv6_from_groups(
                            l + Seq::new((8 - l.len() - r.len()) as nat, |k: int| 0u16) + r,
                        ),
                    )
                } else {
                    None
                }
            } else {
                None
            }
        } else {
            None
        },
    }
}

/// Parses an IPv6 address; fails exactly when the text is not a well-formed
/// group list, with or without one `::` compression.
pub fn parse_ipv6_str(ip: &str) -> (r: Result<Ipv6Address, PublicIpRetrieverError>)
    ensures
        r matches Ok(a) ==> spec_parse_ipv6(ip@) == Some(a),
        r is Err ==> spec_parse_ipv6(ip@) is None,
        r matches Err(e) ==> e == PublicIpRetrieverError::Ip6ParseError,
{
    let n = ip.unicode_len();
    match find_double_colon(ip) {
        None => {
            let parts = split_char(ip, ':');
            if parts.len() != 8 {
                return Err(PublicIpRetrieverError::Ip6ParseError);
            }
            let mut vals: Vec<u16> = Vec::new();
            let mut i: usize = 0;
            while i < 8
                invariant
                    spec_find_dc(ip@) is None,
                    parts.deep_view() == spec_split(ip@, ':'),
                    parts@.len() == 8,
                    0 <= i <= 8,
                    vals@.len() == i,
                    forall|j: int| 0 <= j < i ==> valid_group_text(parts.deep_view()[j]),
                    forall|j: int|
                        0 <= j < i ==> vals@[j] as nat == spec_hex_value(parts.deep_view()[j]),
                decreases 8 - i,
            {
                proof {
                    assert(parts.deep_view()[i as int] == parts@[i as int]@);
                }
                match hex_group_value(parts[i].as_str()) {
                    None => {
                        proof {
                            assert(!valid_group_text(spec_split(ip@, ':')[i as int]));
                            assert(!valid_groups(spec_split(ip@, ':')));
                        }
                        return Err(PublicIpRetrieverError::Ip6ParseError);
                    },
                    Some(v) => {
                        vals.push(v);
                    },
                }
                i = i + 1;
            }
            let a = Ipv6Address {
                g0: vals[0],
                g1: vals[1],
                g2: vals[2],
                g3: vals[3],
                g4: vals[4],
                g5: vals[5],
                g6: vals[6],
                g7: vals[7],
            };
            proof {
                assert(valid_groups(parts.deep_view()));
                assert(vals@ =~= group_values(parts.deep_view()));
                assert(a == ipv6_from_groups(group_values(parts.deep_view())));
            }
            Ok(a)
        },
        Some(i) => {
            proof {
                lemma_find_dc_properties(ip@);
            }
            let left = ip.substring_char(0, i);
            let right = ip.substring_char(i + 2, n);
            let lo = side_groups(left);
            let ro = side_groups(right);
            match (lo, ro) {
                (Some(l), Some(r)) => {
                    if l.len() > 7 || r.len() > 7 - l.len() {
                        return Err(PublicIpRetrieverError::Ip6ParseError);
                    }
                    let zeros: usize = 8 - l.len() - r.len();
                    let mut vals: Vec<u16> = Vec::new();
                    let mut k: usize = 0;
                    while k < l.len()
                        invariant
                            0 <= k <= l@.len(),
                            vals@.len() == k,
                            forall|j: int| 0 <= j < k ==> vals@[j] == l@[j],
                        decreases l@.len() - k,
                    {
                        vals.push(l[k]);
                        k = k + 1;
                    }
                    let mut z: usize = 0;
                    while z < zeros
                        invariant
                            0 <= z <= zeros,
                            zeros == 8 - l@.len() - r@.len(),
                            l@.len() + r@.len() <= 7,
                            vals@.len() == l@.len() + z,
                            forall|j: int| 0 <= j < l@.len() ==> vals@[j] == l@[j],
                            forall|j: int|
                                l@.len() <= j < l@.len() + z ==> vals@[j] == 0u16,
                        decreases zeros - z,
                    {
                        vals.push(0u16);
                        z = z + 1;
                    }
                    let mut k2: usize = 0;
                    while k2 < r.len()
                        invariant
                            0 <= k2 <= r@.len(),
                            zeros == 8 - l@.len() - r@.len(),
                            l@.len() + r@.len() <= 7,
                            vals@.len() == l@.len() + zeros + k2,
                            forall|j: int| 0 <= j < l@.len() ==> vals@[j] == l@[j],
                            forall|j: int|
                                l@.len() <= j < l@.len() + zeros ==> vals@[j] == 0u16,
                            forall|j: int|
                                0 <= j < k2 ==> vals@[l@.len() + zeros + j] == r@[j],
                        decreases r@.len() - k2,
                    {
                        vals.push(r[k2]);
                        k2 = k2 + 1;
                    }
                    let a = Ipv6Address {
                        g0: vals[0],
                        g1: vals[1],
                        g2: vals[2],
                        g3: vals[3],
                        g4: vals[4],
                        g5: vals[5],
                        g6: vals[6],
                        g7: vals[7],
                    };
                    proof {
                        let full = l@ + Seq::new((8 - l@.len() - r@.len()) as nat, |k: int| 0u16)
                            + r@;
                        assert(vals@ =~= full);
                        assert(a == ipv6_from_groups(full));
                    }
                    Ok(a)
                },
                _ => Err(PublicIpRetrieverError::Ip6ParseError),
            }
        },
    }
}

// ---------------------------------------------------------------------------
// IPv6 rendering
// ---------------------------------------------------------------------------

/// Canonical hex rendering of one group: lowercase, no leading zeros.
pub open spec fn spec_hex_u16_string(n: nat) -> Seq<char>
    decreases n,
{
    if n < 16 {
        seq![crate::signing::spec_hex_digit_char(n)]
    } else {
        spec_hex_u16_string(n / 16).push(crate::signing::spec_hex_digit_char(n % 16))
    }
}

pub fn u16_to_hex_string(n: u16) -> (r: String)
    ensures
        r@ == spec_hex_u16_string(n as nat),
    decreases n,
{
    let d: u16 = n % 16;
    let ds = crate::signing::hex_digit_str(d as u8);
    if n < 16 {
        ds.to_owned()
    } else {
        let mut s = u16_to_hex_string(n / 16);
        s.append(ds);
        proof {
            assert(s@ =~= spec_hex_u16_string((n / 16) as nat).push(
                crate::signing::spec_hex_digit_char((n % 16) as nat),
            ));
        }
        s
    }
}

/// Canonical rendering: all eight groups, lowercase, uncompressed.
pub open spec fn spec_format_ipv6(a: Ipv6Address) -> Seq<char> {
    spec_hex_u16_string(a.g0 as nat) + seq![':'] + (spec_hex_u16_string(a.g1 as nat) + seq![':']
        + (spec_hex_u16_string(a.g2 as nat) + seq![':'] + (spec_hex_u16_string(a.g3 as nat)
        + seq![':'] + (spec_hex_u16_string(a.g4 as nat) + seq![':'] + (spec_hex_u16_string(
        a.g5 as nat,
    ) + seq![':'] + (spec_hex_u16_string(a.g6 as nat) + seq![':'] + spec_hex_u16_string(
        a.g7 as nat,
    )))))))
}

pub fn format_ipv6(a: &Ipv6Address) -> (r: String)
    ensures
        r@ == spec_format_ipv6(*a),
{
    proof {
        reveal_strlit(":");
    }
    let t7 = u16_to_hex_string(a.g7);
    let mut s6 = u16_to_hex_string(a.g6);
    s6.append(":");
    s6.append(t7.as_str());
    proof {
        assert(s6@ =~= spec_hex_u16_string(a.g6 as nat) + seq![':'] + t7@);
    }
    let mut s5 = u16_to_hex_string(a.g5);
    s5.append(":");
    s5.append(s6.as_str());
    proof {
        assert(s5@ =~= spec_hex_u16_string(a.g5 as nat) + seq![':'] + s6@);
    }
    let mut s4 = u16_to_hex_string(a.g4);
    s4.append(":");
    s4.append(s5.as_str());
    proof {
        assert(s4@ =~= spec_hex_u16_string(a.g4 as nat) + seq![':'] + s5@);
    }
    let mut s3 = u16_to_hex_string(a.g3);
    s3.append(":");
    s3.append(s4.as_str());
    proof {
        assert(s3@ =~= spec_hex_u16_string(a.g3 as nat) + seq![':'] + s4@);
    }
    let mut s2 = u16_to_hex_string(a.g2);
    s2.append(":");
    s2.append(s3.as_str());
    proof {
        assert(s2@ =~= spec_hex_u16_string(a.g2 as nat) + seq![':'] + s3@);
    }
    let mut s1 = u16_to_hex_string(a.g1);
    s1.append(":");
    s1.append(s2.as_str());
    proof {
        assert(s1@ =~= spec_hex_u16_string(a.g1 as nat) + seq![':'] + s2@);
    }
    let mut s0 = u16_to_hex_string(a.g0);
    s0.append(":");
    s0.append(s1.as_str());
    proof {
        assert(s0@ =~= spec_hex_u16_string(a.g0 as nat) + seq![':'] + s1@);
        assert(s0@ == spec_format_ipv6(*a));
    }
    s0
}

proof fn lemma_hex_string_digits(n: nat)
    ensures
        spec_hex_u16_string(n).len() >= 1,
        all_hex_digits(spec_hex_u16_string(n)),
    decreases n,
{
    if n < 16 {
        assert(is_hex_digit(crate::signing::spec_hex_digit_char(n)));
    } else {
        lemma_hex_string_digits(n / 16);
        assert(is_hex_digit(crate::signing::spec_hex_digit_char(n % 16)));
        assert forall|i: int| 0 <= i < spec_hex_u16_string(n).len() implies is_hex_digit(
            spec_hex_u16_string(n)[i],
        ) by {
            if i < spec_hex_u16_string(n / 16).len() {
                assert(spec_hex_u16_string(n)[i] == spec_hex_u16_string(n / 16)[i]);
            }
        }
    }
}

proof fn lemma_hex_string_value(n: nat)
    ensures
        spec_hex_value(spec_hex_u16_string(n)) == n,
    decreases n,
{
    if n < 16 {
        let s = spec_hex_u16_string(n);
        assert(s == seq![crate::signing::spec_hex_digit_char(n)]);
        assert(s.len() == 1);
        assert(s.last() == crate::signing::spec_hex_digit_char(n));
        assert(s.drop_last() =~= Seq::<char>::empty());
        assert(spec_hex_value(Seq::<char>::empty()) == 0);
        assert(spec_hex_value(s) == spec_hex_value(s.drop_last()) * 16 + hex_val(s.last()));
        assert(hex_val(crate::signing::spec_hex_digit_char(n)) == n);
    } else {
        lemma_hex_string_value(n / 16);
        let s = spec_hex_u16_string(n);
        assert(s == spec_hex_u16_string(n / 16).push(crate::signing::spec_hex_digit_char(n % 16)));
        assert(s.len() > 0);
        assert(s.last() == crate::signing::spec_hex_digit_char(n % 16));
        assert(s.drop_last() =~= spec_hex_u16_string(n / 16));
        assert(spec_hex_value(s) == spec_hex_value(s.drop_last()) * 16 + hex_val(s.last()));
        assert(hex_val(crate::signing::spec_hex_digit_char(n % 16)) == n % 16);
        assert((n / 16) * 16 + n % 16 == n);
    }
}

proof fn lemma_hex_string_len(n: nat, k: nat)
    requires
        k >= 1,
        n < pow16(k),
    ensures
        spec_hex_u16_string(n).len() <= k,
    decreases n,
{
    if n < 16 {
    } else {
        assert(pow16(k) == 16 * pow16((k - 1) as nat));
        assert(n / 16 < pow16((k - 1) as nat));
        lemma_pow16_vals();
        if k == 1 {
            assert(false);
        }
        lemma_hex_string_len(n / 16, (k - 1) as nat);
    }
}

proof fn lemma_group_string_valid(n: nat)
    requires
        n <= 65535,
    ensures
        valid_group_text(spec_hex_u16_string(n)),
        spec_hex_value(spec_hex_u16_string(n)) == n,
        forall|j: int| 0 <= j < spec_hex_u16_string(n).len() ==> spec_hex_u16_string(n)[j] != ':',
{
    lemma_hex_string_digits(n);
    lemma_hex_string_value(n);
    lemma_pow16_vals();
    lemma_hex_string_len(n, 4);
    assert forall|j: int| 0 <= j < spec_hex_u16_string(n).len() implies spec_hex_u16_string(n)[j]
        != ':' by {
        assert(is_hex_digit(spec_hex_u16_string(n)[j]));
    }
}

pub open spec fn no_double_colon(s: Seq<char>) -> bool {
    forall|j: int| 0 <= j && j + 1 < s.len() ==> !((#[trigger] s[j]) == ':' && s[j + 1] == ':')
}

proof fn lemma_no_dc_join(p: Seq<char>, rest: Seq<char>)
    requires
        p.len() > 0,
        forall|j: int| 0 <= j < p.len() ==> p[j] != ':',
        no_double_colon(rest),
        rest.len() > 0,
        rest[0] != ':',
    ensures
        no_double_colon(p + seq![':'] + rest),
        (p + seq![':'] + rest).len() > 0,
        (p + seq![':'] + rest)[0] != ':',
{
    let s = p + seq![':'] + rest;
    assert forall|j: int| 0 <= j && j + 1 < s.len() implies !((#[trigger] s[j]) == ':' && s[j + 1] == ':') by {
        if j + 1 < p.len() {
            assert(s[j] == p[j]);
        } else if j + 1 == p.len() {
            assert(s[j] == p[j]);
        } else if j == p.len() {
            assert(s[j + 1] == rest[0]);
        } else {
            assert(s[j] == rest[j - p.len() - 1]);
            assert(s[j + 1] == rest[j - p.len()]);
        }
    }
    assert(s[0] == p[0]);
}

#[verifier::rlimit(100)]
proof fn lemma_ipv6_format_structure(a: Ipv6Address)
    ensures
        spec_find_dc(spec_format_ipv6(a)) is None,
        spec_split(spec_format_ipv6(a), ':') == seq![
            spec_hex_u16_string(a.g0 as nat),
            spec_hex_u16_string(a.g1 as nat),
            spec_hex_u16_string(a.g2 as nat),
            spec_hex_u16_string(a.g3 as nat),
            spec_hex_u16_string(a.g4 as nat),
            spec_hex_u16_string(a.g5 as nat),
            spec_hex_u16_string(a.g6 as nat),
            spec_hex_u16_string(a.g7 as nat),
        ],
{
    let h0 = spec_hex_u16_string(a.g0 as nat);
    let h1 = spec_hex_u16_string(a.g1 as nat);
    let h2 = spec_hex_u16_string(a.g2 as nat);
    let h3 = spec_hex_u16_string(a.g3 as nat);
    let h4 = spec_hex_u16_string(a.g4 as nat);
    let h5 = spec_hex_u16_string(a.g5 as nat);
    let h6 = spec_hex_u16_string(a.g6 as nat);
    let h7 = spec_hex_u16_string(a.g7 as nat);
    lemma_group_string_valid(a.g0 as nat);
    lemma_group_string_valid(a.g1 as nat);
    lemma_group_string_valid(a.g2 as nat);
    lemma_group_string_valid(a.g3 as nat);
    lemma_group_string_valid(a.g4 as nat);
    lemma_group_string_valid(a.g5 as nat);
    lemma_group_string_valid(a.g6 as nat);
    lemma_group_string_valid(a.g7 as nat);
    let u6 = h6 + seq![':'] + h7;
    let u5 = h5 + seq![':'] + u6;
    let u4 = h4 + seq![':'] + u5;
    let u3 = h3 + seq![':'] + u4;
    let u2 = h2 + seq![':'] + u3;
    let u1 = h1 + seq![':'] + u2;
    let s = h0 + seq![':'] + u1;
    assert(s == spec_format_ipv6(a));
    assert(no_double_colon(h7) && h7.len() > 0 && h7[0] != ':');
    lemma_no_dc_join(h6, h7);
    lemma_no_dc_join(h5, u6);
    lemma_no_dc_join(h4, u5);
    lemma_no_dc_join(h3, u4);
    lemma_no_dc_join(h2, u3);
    lemma_no_dc_join(h1, u2);
    lemma_no_dc_join(h0, u1);
    lemma_find_dc_absent(s);
    lemma_split_on_sep(h6, h7, ':');
    lemma_split_on_sep(h5, u6, ':');
    lemma_split_on_sep(h4, u5, ':');
    lemma_split_on_sep(h3, u4, ':');
    lemma_split_on_sep(h2, u3, ':');
    lemma_split_on_sep(h1, u2, ':');
    lemma_split_on_sep(h0, u1, ':');
    lemma_split_no_sep(h7, ':');
    assert(spec_split(s, ':') =~= seq![h0, h1, h2, h3, h4, h5, h6, h7]);
}

/// Rendering an address and reading the text back yields the address.
#[verifier::rlimit(100)]
pub proof fn lemma_ipv6_round_trip(a: Ipv6Address)
    ensures
        spec_parse_ipv6(spec_format_ipv6(a)) == Some(a),
{
    let s = spec_format_ipv6(a);
    lemma_ipv6_format_structure(a);
    lemma_group_string_valid(a.g0 as nat);
    lemma_group_string_valid(a.g1 as nat);
    lemma_group_string_valid(a.g2 as nat);
    lemma_group_string_valid(a.g3 as nat);
    lemma_group_string_valid(a.g4 as nat);
    lemma_group_string_valid(a.g5 as nat);
    lemma_group_string_valid(a.g6 as nat);
    lemma_group_string_valid(a.g7 as nat);
    let parts = spec_split(s, ':');
    assert(valid_groups(parts)) by {
        assert forall|i: int| 0 <= i < parts.len() implies valid_group_text(parts[i]) by {
            assert(parts == seq![
                spec_hex_u16_string(a.g0 as nat),
                spec_hex_u16_string(a.g1 as nat),
                spec_hex_u16_string(a.g2 as nat),
                spec_hex_u16_string(a.g3 as nat),
                spec_hex_u16_string(a.g4 as nat),
                spec_hex_u16_string(a.g5 as nat),
                spec_hex_u16_string(a.g6 as nat),
                spec_hex_u16_string(a.g7 as nat),
            ]);
        }
    }
    assert(group_values(parts) =~= a.groups());
    assert(ipv6_from_groups(a.groups()) == a);
}

// ---------------------------------------------------------------------------
// either version
// ---------------------------------------------------------------------------

pub open spec fn spec_parse_ip(version: IpVersion, s: Seq<char>) -> Option<IpAddress> {
    match version {
        IpVersion::V4 => match spec_parse_ipv4(s) {
            Some(a) => Some(IpAddress::V4(a)),
            None => None,
        },
        IpVersion::V6 => match spec_parse_ipv6(s) {
            Some(a) => Some(IpAddress::V6(a)),
            None => None,
        },
    }
}

/// The decoding error reported for each version.
pub open spec fn spec_parse_error(version: IpVersion) -> PublicIpRetrieverError {
    match version {
        IpVersion::V4 => PublicIpRetrieverError::Ip4ParseError,
        IpVersion::V6 => PublicIpRetrieverError::Ip6ParseError,
    }
}

/// The connection error reported for each version.
pub open spec fn spec_connection_error(version: IpVersion) -> PublicIpRetrieverError {
    match version {
        IpVersion::V4 => PublicIpRetrieverError::Ip4ConnectionError,
        IpVersion::V6 => PublicIpRetrieverError::Ip6ConnectionError,
    }
}

pub fn connection_error(version: IpVersion) -> (r: PublicIpRetrieverError)
    ensures
        r == spec_connection_error(version),
{
    match version {
        IpVersion::V4 => PublicIpRetrieverError::Ip4ConnectionError,
        IpVersion::V6 => PublicIpRetrieverError::Ip6ConnectionError,
    }
}

pub fn parse_error(version: IpVersion) -> (r: PublicIpRetrieverError)
    ensures
        r == spec_parse_error(version),
{
    match version {
        IpVersion::V4 => PublicIpRetrieverError::Ip4ParseError,
        IpVersion::V6 => PublicIpRetrieverError::Ip6ParseError,
    }
}

/// Parses an address of the requested version, reporting that version's
/// decoding error on failure.
pub fn parse_ip_str(version: IpVersion, s: &str) -> (r: Result<IpAddress, PublicIpRetrieverError>)
    ensures
        r matches Ok(a) ==> spec_parse_ip(version, s@) == Some(a) && a.spec_version() == version,
        r is Err ==> spec_parse_ip(version, s@) is None,
        r matches Err(e) ==> e == spec_parse_error(version),
{
    match version {
        IpVersion::V4 => match parse_ipv4_str(s) {
            Ok(a) => Ok(IpAddress::V4(a)),
            Err(e) => Err(e),
        },
        IpVersion::V6 => match parse_ipv6_str(s) {
            Ok(a) => Ok(IpAddress::V6(a)),
            Err(e) => Err(e),
        },
    }
}

pub open spec fn spec_format_ip(a: IpAddress) -> Seq<char> {
    match a {
        IpAddress::V4(x) => spec_format_ipv4(x),
        IpAddress::V6(x) => spec_format_ipv6(x),
    }
}

pub fn format_ip(a: &IpAddress) -> (r: String)
    ensures
        r@ == spec_format_ip(*a),
{
    match a {
        IpAddress::V4(x) => format_ipv4(x),
        IpAddress::V6(x) => format_ipv6(x),
    }
}

/// Rendering any address and parsing it back at its own version yields the
/// address again.
pub proof fn lemma_ip_round_trip(a: IpAddress)
    ensures
        spec_parse_ip(a.spec_version(), spec_format_ip(a)) == Some(a),
{
    match a {
        IpAddress::V4(x) => lemma_ipv4_round_trip(x),
        IpAddress::V6(x) => lemma_ipv6_round_trip(x),
    }
}

} // verus!
