//! Splitting a fully-qualified domain name into its registrable root and
//! the subdomain labels in front of it.
//!
//! Which suffixes are registrable is decided by the public-suffix list,
//! consulted through an outside crate; everything from its answer to the
//! final pair of strings is verified.

use vstd::prelude::*;

use crate::errors::OvhDnsUpdaterError;

verus! {

/// Registrable root of a domain name under the public-suffix list, `None`
/// when the name holds no registrable root; given meaning only by the
/// trusted wrapper below.
pub uninterp spec fn root_of(s: Seq<char>) -> Option<Seq<char>>;

/// Relies on addr::parse_domain_name and addr::domain::Name::root: the
/// root, when there is one, is a non-empty tail of the input, preceded by a
/// dot unless it is the whole input, and depends on the input alone.
#[verifier::external_body]
fn registrable_root(full: &str) -> (r: Option<String>)
    ensures
        (r is Some) == (root_of(full@) is Some),
        r matches Some(root) ==> root_of(full@) == Some(root@),
        r matches Some(root) ==> 0 < root@.len() <= full@.len(),
        r matches Some(root) ==> root@ == full@.subrange(
            full@.len() - root@.len(),
            full@.len() as int,
        ),
        r matches Some(root) ==> (root@.len() == full@.len() || full@[full@.len() - root@.len()
            - 1] == '.'),
{
    match addr::parse_domain_name(full) {
        Ok(name) => match name.root() {
            Some(root) => Some(root.to_string()),
            None => None,
        },
        Err(_) => None,
    }
}

/// The subdomain part that stands in front of `root` in `full`: everything
/// before the dot that joins them, or empty for a bare root.
pub open spec fn spec_sub_domain(full: Seq<char>, root: Seq<char>) -> Seq<char> {
    if root.len() == full.len() {
        Seq::<char>::empty()
    } else {
        full.subrange(0, full.len() - root.len() - 1)
    }
}

/// Splits a fully-qualified domain into (registrable root, subdomain).
///
/// Succeeds exactly when the public-suffix list finds a registrable root in
/// the name; the subdomain is everything in front of that root, with the
/// joining dot removed, and is empty for a bare root.
pub fn separate_root_and_sub_domain(full_domain: &str) -> (r: Result<
    (String, String),
    OvhDnsUpdaterError,
>)
    ensures
        (r is Ok) == (root_of(full_domain@) is Some),
        r matches Ok(parts) ==> root_of(full_domain@) == Some(parts.0@) && parts.1@
            == spec_sub_domain(full_domain@, parts.0@),
        r matches Err(e) ==> e == OvhDnsUpdaterError::IncorrectDomainNameFormat,
{
    let n = full_domain.unicode_len();
    match registrable_root(full_domain) {
        None => Err(OvhDnsUpdaterError::IncorrectDomainNameFormat),
        Some(root) => {
            let root_len = root.as_str().unicode_len();
            if root_len == n {
                let sub = String::new();
                proof {
                    assert(sub@ =~= spec_sub_domain(full_domain@, root@));
                }
                Ok((root, sub))
            } else {
                let sub = full_domain.substring_char(0, n - root_len - 1).to_owned();
                Ok((root, sub))
            }
        },
    }
}

/// Splitting law: a name made of subdomain labels, a dot and a registrable
/// root yields back exactly that root and that joined label sequence, and a
/// bare root yields an empty subdomain.
pub proof fn lemma_split_recovers_parts(sub: Seq<char>, root: Seq<char>)
    ensures
        spec_sub_domain(root, root) == Seq::<char>::empty(),
        sub.len() > 0 ==> spec_sub_domain(sub + seq!['.'] + root, root) == sub,
{
    if sub.len() > 0 {
        let full = sub + seq!['.'] + root;
        assert(full.len() == sub.len() + 1 + root.len());
        assert(full.subrange(0, full.len() - root.len() - 1) =~= sub);
    }
}

} // verus!
