//! The DNS name carried in queries and proofs.
//!
//! The crate stores a name as its hostname text without the trailing root
//! dot, exactly the form written to the wire. Construction validates the
//! text twice: the hostname rules of [`crate::hostname`], and the
//! DNS-specific structure rules of the `dnssec_prover` crate, applied to
//! the text with the root dot appended.

use crate::hostname::{is_valid_hostname, valid_hostname};
use vstd::prelude::*;
use vstd::string::StringExecFns;

verus! {

/// A character accepted in a DNS name: a hyphen, dot, underscore,
/// asterisk, digit or ASCII letter.
pub open spec fn is_dns_name_char(c: char) -> bool {
    c == '-' || c == '.' || c == '_' || c == '*' || ('0' <= c && c <= '9') || ('a' <= c && c
        <= 'z') || ('A' <= c && c <= 'Z')
}

/// Somewhere in the 64-character window of `s` that starts at `i` there
/// is a dot.
pub open spec fn window_has_dot(s: Seq<char>, i: int) -> bool {
    exists|k: int| i <= k <= i + 63 && #[trigger] s[k] == '.'
}

/// No 64 consecutive characters lack a dot; in a string that ends with a
/// dot this says exactly that every dot-separated label is at most 63
/// characters long.
pub open spec fn dns_labels_short_enough(s: Seq<char>) -> bool {
    forall|i: int| 0 <= i && i + 63 < s.len() ==> #[trigger] window_has_dot(s, i)
}

/// The strings accepted as DNS names: non-empty, at most 255 characters,
/// ending in the root dot, every character from the DNS name set (all
/// ASCII, so bytes and characters coincide), and every label at most 63
/// characters.
pub open spec fn dns_name_convertible(s: Seq<char>) -> bool {
    &&& 1 <= s.len() <= 255
    &&& s[s.len() - 1] == '.'
    &&& (forall|i: int| 0 <= i < s.len() ==> is_dns_name_char(#[trigger] s[i]))
    &&& dns_labels_short_enough(s)
}

/// Relies on `dnssec_prover::rr::Name::try_from`: it accepts exactly the
/// strings of [`dns_name_convertible`] — non-empty, at most 255 bytes,
/// ending in `'.'`, characters limited to `- . _ *`, digits and ASCII
/// letters, and every `'.'`-separated label at most 63 bytes. The result
/// depends on the string alone.
#[verifier::external_body]
fn name_conversion_ok(s: &str) -> (r: bool)
    ensures
        r == dns_name_convertible(s@),
{
    dnssec_prover::rr::Name::try_from(s).is_ok()
}

/// The text of a well-formed name: a valid hostname that the DNS
/// structure rules accept once the root dot is appended.
pub open spec fn valid_dns_name(s: Seq<char>) -> bool {
    valid_hostname(s) && dns_name_convertible(s.push('.'))
}

/// A validated DNS name, stored as its text without the trailing root
/// dot — the exact bytes the wire encoding carries. No partially-valid
/// instance is observable: construction fails atomically.
#[derive(Debug, Hash, PartialEq, Eq)]
pub struct DnsName {
    text: String,
}

impl Clone for DnsName {
    fn clone(&self) -> (r: Self)
        ensures
            r == *self,
    {
        proof {
            use_type_invariant(self);
        }
        DnsName { text: self.text.clone() }
    }
}

impl View for DnsName {
    type V = Seq<char>;

    closed spec fn view(&self) -> Seq<char> {
        self.text@
    }
}

impl DnsName {
    /// Every reachable instance holds a valid DNS name.
    #[verifier::type_invariant]
    pub open spec fn type_inv(&self) -> bool {
        valid_dns_name(self@)
    }

    /// Validates `name` and wraps it: `Ok` exactly on valid DNS names.
    pub fn new(name: String) -> (r: Result<DnsName, ()>)
        ensures
            match r {
                Ok(n) => n@ == name@ && valid_dns_name(name@),
                Err(_) => !valid_dns_name(name@),
            },
    {
        if !is_valid_hostname(name.as_str()) {
            return Err(());
        }
        let mut dotted = name.clone();
        dotted.append(".");
        proof {
            reveal_strlit(".");
            assert(dotted@ =~= name@.push('.'));
        }
        if !name_conversion_ok(dotted.as_str()) {
            return Err(());
        }
        Ok(DnsName { text: name })
    }

    /// The textual form of the name.
    pub fn as_str(&self) -> (r: &str)
        ensures
            r@ == self@,
    {
        self.text.as_str()
    }
}

} // verus!
