//! Request signing for the DNS provider's API.
//!
//! A signed call carries a signature computed from the application secret,
//! the consumer key, the HTTP method, the full URL, the body and the
//! timestamp, joined by literal `+` characters, hashed with SHA-1 and
//! rendered as `$1$` followed by the lowercase hex digest.  The hash itself
//! comes from an outside crate; everything around it is verified.

use sha1::Digest;
use vstd::prelude::*;
use vstd::string::StringExecFns;
use vstd::utf8::encode_utf8;

verus! {

broadcast use vstd::string::group_string_axioms;

/// SHA-1 digest of a byte sequence; given meaning only by the trusted
/// wrapper below.
pub uninterp spec fn sha1_of(data: Seq<u8>) -> Seq<u8>;

/// Relies on sha1::Sha1 through digest::Digest::digest: the SHA-1 digest of
/// the input bytes, 20 bytes long, a function of the input alone.
#[verifier::external_body]
fn sha1_digest(data: &[u8]) -> (r: Vec<u8>)
    ensures
        r@ == sha1_of(data@),
        r@.len() == 20,
{
    sha1::Sha1::digest(data).to_vec()
}

// ---------------------------------------------------------------------------
// lowercase hex rendering of bytes
// ---------------------------------------------------------------------------

pub open spec fn spec_hex_digit_char(d: nat) -> char {
    if d == 0 {
        '0'
    } else if d == 1 {
        '1'
    } else if d == 2 {
        '2'
    } else if d == 3 {
        '3'
    } else if d == 4 {
        '4'
    } else if d == 5 {
        '5'
    } else if d == 6 {
        '6'
    } else if d == 7 {
        '7'
    } else if d == 8 {
        '8'
    } else if d == 9 {
        '9'
    } else if d == 10 {
        'a'
    } else if d == 11 {
        'b'
    } else if d == 12 {
        'c'
    } else if d == 13 {
        'd'
    } else if d == 14 {
        'e'
    } else {
        'f'
    }
}

/// Two lowercase hex characters for each byte, high nibble first.
pub open spec fn spec_hex_bytes(bs: Seq<u8>) -> Seq<char>
    decreases bs.len(),
{
    if bs.len() == 0 {
        Seq::<char>::empty()
    } else {
        spec_hex_bytes(bs.drop_last()) + seq![
            spec_hex_digit_char((bs.last() / 16) as nat),
            spec_hex_digit_char((bs.last() % 16) as nat),
        ]
    }
}

pub(crate) fn hex_digit_str(d: u8) -> (r: &'static str)
    requires
        d < 16,
    ensures
        r@ =~= seq![spec_hex_digit_char(d as nat)],
{
    proof {
        reveal_strlit("0");
        reveal_strlit("1");
        reveal_strlit("2");
        reveal_strlit("3");
        reveal_strlit("4");
        reveal_strlit("5");
        reveal_strlit("6");
        reveal_strlit("7");
        reveal_strlit("8");
        reveal_strlit("9");
        reveal_strlit("a");
        reveal_strlit("b");
        reveal_strlit("c");
        reveal_strlit("d");
        reveal_strlit("e");
        reveal_strlit("f");
    }
    if d == 0 {
        "0"
    } else if d == 1 {
        "1"
    } else if d == 2 {
        "2"
    } else if d == 3 {
        "3"
    } else if d == 4 {
        "4"
    } else if d == 5 {
        "5"
    } else if d == 6 {
        "6"
    } else if d == 7 {
        "7"
    } else if d == 8 {
        "8"
    } else if d == 9 {
        "9"
    } else if d == 10 {
        "a"
    } else if d == 11 {
        "b"
    } else if d == 12 {
        "c"
    } else if d == 13 {
        "d"
    } else if d == 14 {
        "e"
    } else {
        "f"
    }
}

pub fn to_hex_lower(bs: &Vec<u8>) -> (r: String)
    ensures
        r@ == spec_hex_bytes(bs@),
{
    let mut out = String::new();
    let mut i: usize = 0;
    while i < bs.len()
        invariant
            0 <= i <= bs@.len(),
            out@ == spec_hex_bytes(bs@.subrange(0, i as int)),
        decreases bs@.len() - i,
    {
        let b = bs[i];
        out.append(hex_digit_str(b / 16));
        out.append(hex_digit_str(b % 16));
        proof {
            let pre = bs@.subrange(0, i as int + 1);
            assert(pre.drop_last() =~= bs@.subrange(0, i as int));
            assert(pre.last() == bs@[i as int]);
        }
        i = i + 1;
    }
    proof {
        assert(bs@.subrange(0, bs@.len() as int) =~= bs@);
    }
    out
}

// ---------------------------------------------------------------------------
// the signature scheme
// ---------------------------------------------------------------------------

/// The string that is hashed: the six components joined by literal `+`,
/// in this fixed order.
pub open spec fn spec_signature_input(
    secret: Seq<char>,
    consumer: Seq<char>,
    method: Seq<char>,
    url: Seq<char>,
    body: Seq<char>,
    timestamp: Seq<char>,
) -> Seq<char> {
    secret + seq!['+'] + consumer + seq!['+'] + method + seq!['+'] + url + seq!['+'] + body
        + seq!['+'] + timestamp
}

/// The signature header value: `$1$` followed by the lowercase hex SHA-1
/// digest of the UTF-8 bytes of the joined string.
pub open spec fn spec_signature(
    secret: Seq<char>,
    consumer: Seq<char>,
    method: Seq<char>,
    url: Seq<char>,
    body: Seq<char>,
    timestamp: Seq<char>,
) -> Seq<char> {
    seq!['$', '1', '$'] + spec_hex_bytes(
        sha1_of(encode_utf8(spec_signature_input(secret, consumer, method, url, body, timestamp))),
    )
}

pub fn signature(
    secret: &str,
    consumer: &str,
    method: &str,
    url: &str,
    body: &str,
    timestamp: &str,
) -> (r: String)
    ensures
        r@ == spec_signature(secret@, consumer@, method@, url@, body@, timestamp@),
{
    let mut joined = secret.to_owned();
    joined.append("+");
    joined.append(consumer);
    joined.append("+");
    joined.append(method);
    joined.append("+");
    joined.append(url);
    joined.append("+");
    joined.append(body);
    joined.append("+");
    joined.append(timestamp);
    proof {
        reveal_strlit("+");
        assert(joined@ =~= spec_signature_input(secret@, consumer@, method@, url@, body@,
            timestamp@));
    }
    let digest = sha1_digest(joined.as_str().as_bytes());
    let hex = to_hex_lower(&digest);
    let mut out: String = "$1$".to_owned();
    out.append(hex.as_str());
    proof {
        reveal_strlit("$1$");
        assert(out@ =~= spec_signature(secret@, consumer@, method@, url@, body@, timestamp@));
    }
    out
}

// ---------------------------------------------------------------------------
// what determines a signature
// ---------------------------------------------------------------------------

/// The signature is a function of its six components alone: equal inputs
/// give the identical header value on every computation.
pub proof fn lemma_signature_deterministic(
    secret: Seq<char>,
    consumer: Seq<char>,
    method: Seq<char>,
    url: Seq<char>,
    body: Seq<char>,
    timestamp: Seq<char>,
)
    ensures
        spec_signature(secret, consumer, method, url, body, timestamp) == spec_signature(
            secret,
            consumer,
            method,
            url,
            body,
            timestamp,
        ),
{
}

proof fn lemma_concat_cancel(p: Seq<char>, x: Seq<char>, q: Seq<char>, y: Seq<char>)
    requires
        p + x + q == p + y + q,
    ensures
        x == y,
{
    let a = p + x + q;
    let b = p + y + q;
    assert(a.len() == b.len());
    assert(x.len() == y.len());
    assert forall|i: int| 0 <= i < x.len() implies x[i] == y[i] by {
        assert(a[p.len() + i] == x[i]);
        assert(b[p.len() + i] == y[i]);
    }
    assert(x =~= y);
}

/// Changing any single component, with the five others held fixed, changes
/// the string that is hashed.  (Whether the hash itself then differs is a
/// property of SHA-1 and is not stated here.)
#[verifier::rlimit(100)]
pub proof fn lemma_signature_input_sensitive(
    secret: Seq<char>,
    consumer: Seq<char>,
    method: Seq<char>,
    url: Seq<char>,
    body: Seq<char>,
    timestamp: Seq<char>,
    secret2: Seq<char>,
    consumer2: Seq<char>,
    method2: Seq<char>,
    url2: Seq<char>,
    body2: Seq<char>,
    timestamp2: Seq<char>,
)
    ensures
        secret != secret2 && consumer == consumer2 && method == method2 && url == url2 && body
            == body2 && timestamp == timestamp2 ==> spec_signature_input(
            secret,
            consumer,
            method,
            url,
            body,
            timestamp,
        ) != spec_signature_input(secret2, consumer2, method2, url2, body2, timestamp2),
        secret == secret2 && consumer != consumer2 && method == method2 && url == url2 && body
            == body2 && timestamp == timestamp2 ==> spec_signature_input(
            secret,
            consumer,
            method,
            url,
            body,
            timestamp,
        ) != spec_signature_input(secret2, consumer2, method2, url2, body2, timestamp2),
        secret == secret2 && consumer == consumer2 && method != method2 && url == url2 && body
            == body2 && timestamp == timestamp2 ==> spec_signature_input(
            secret,
            consumer,
            method,
            url,
            body,
            timestamp,
        ) != spec_signature_input(secret2, consumer2, method2, url2, body2, timestamp2),
        secret == secret2 && consumer == consumer2 && method == method2 && url != url2 && body
            == body2 && timestamp == timestamp2 ==> spec_signature_input(
            secret,
            consumer,
            method,
            url,
            body,
            timestamp,
        ) != spec_signature_input(secret2, consumer2, method2, url2, body2, timestamp2),
        secret == secret2 && consumer == consumer2 && method == method2 && url == url2 && body
            != body2 && timestamp == timestamp2 ==> spec_signature_input(
            secret,
            consumer,
            method,
            url,
            body,
            timestamp,
        ) != spec_signature_input(secret2, consumer2, method2, url2, body2, timestamp2),
        secret == secret2 && consumer == consumer2 && method == method2 && url == url2 && body
            == body2 && timestamp != timestamp2 ==> spec_signature_input(
            secret,
            consumer,
            method,
            url,
            body,
            timestamp,
        ) != spec_signature_input(secret2, consumer2, method2, url2, body2, timestamp2),
{
    let j1 = spec_signature_input(secret, consumer, method, url, body, timestamp);
    let j2 = spec_signature_input(secret2, consumer2, method2, url2, body2, timestamp2);
    if j1 == j2 {
        if consumer == consumer2 && method == method2 && url == url2 && body == body2 && timestamp
            == timestamp2 {
            let q = seq!['+'] + consumer + seq!['+'] + method + seq!['+'] + url + seq!['+'] + body
                + seq!['+'] + timestamp;
            assert(Seq::<char>::empty() + secret + q =~= j1);
            assert(Seq::<char>::empty() + secret2 + q =~= j2);
            lemma_concat_cancel(Seq::<char>::empty(), secret, q, secret2);
        }
        if secret == secret2 && method == method2 && url == url2 && body == body2 && timestamp
            == timestamp2 {
            let p = secret + seq!['+'];
            let q = seq!['+'] + method + seq!['+'] + url + seq!['+'] + body + seq!['+'] + timestamp;
            assert(p + consumer + q =~= j1);
            assert(p + consumer2 + q =~= j2);
            lemma_concat_cancel(p, consumer, q, consumer2);
        }
        if secret == secret2 && consumer == consumer2 && url == url2 && body == body2 && timestamp
            == timestamp2 {
            let p = secret + seq!['+'] + consumer + seq!['+'];
            let q = seq!['+'] + url + seq!['+'] + body + seq!['+'] + timestamp;
            assert(p + method + q =~= j1);
            assert(p + method2 + q =~= j2);
            lemma_concat_cancel(p, method, q, method2);
        }
        if secret == secret2 && consumer == consumer2 && method == method2 && body == body2
            && timestamp == timestamp2 {
            let p = secret + seq!['+'] + consumer + seq!['+'] + method + seq!['+'];
            let q = seq!['+'] + body + seq!['+'] + timestamp;
            assert(p + url + q =~= j1);
            assert(p + url2 + q =~= j2);
            lemma_concat_cancel(p, url, q, url2);
        }
        if secret == secret2 && consumer == consumer2 && method == method2 && url == url2
            && timestamp == timestamp2 {
            let p = secret + seq!['+'] + consumer + seq!['+'] + method + seq!['+'] + url
                + seq!['+'];
            let q = seq!['+'] + timestamp;
            assert(p + body + q =~= j1);
            assert(p + body2 + q =~= j2);
            lemma_concat_cancel(p, body, q, body2);
        }
        if secret == secret2 && consumer == consumer2 && method == method2 && url == url2 && body
            == body2 {
            let p = secret + seq!['+'] + consumer + seq!['+'] + method + seq!['+'] + url
                + seq!['+'] + body + seq!['+'];
            assert(p + timestamp + Seq::<char>::empty() =~= j1);
            assert(p + timestamp2 + Seq::<char>::empty() =~= j2);
            lemma_concat_cancel(p, timestamp, Seq::<char>::empty(), timestamp2);
        }
    }
}

} // verus!
