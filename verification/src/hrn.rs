//! The two-part human-readable payment identifier and its codecs.
//!
//! A [`HumanReadableName`] holds a `user` and a `domain` part. Both parts
//! are non-empty plain-ASCII hostnames (the ASCII restriction guards
//! against homograph spoofing), and together they leave room for the
//! canonical longer label encoding this identifier occupies when embedded
//! in a DNS label chain: `len(user) + len(domain) + 24 <= 255`.
//!
//! The text form is `user@domain`, optionally led by the currency marker
//! `'₿'`, which is stripped before validation. The binary form is each
//! part as a one-byte length prefix followed by its raw ASCII bytes.

use crate::hostname::{is_valid_hostname, lemma_valid_hostname_ascii, valid_hostname};
use crate::wire::{
    ascii_bytes, lemma_ascii_round_trip, parse_len_prefixed_text, push_bytes,
    read_len_prefixed_text, DecodeError,
};
use vstd::prelude::*;
use vstd::string::{StringExecFns, StringSliceAdditionalSpecFns, StrSliceExecFns};

verus! {

/// The length of the canonical longer encoding `".user._bitcoin-payment."`
/// plus one, reserved beyond the two parts in the 255-byte budget.
pub const REQUIRED_EXTRA_LEN: usize = 24;

/// The currency marker that may lead the text form.
pub const CURRENCY_MARKER: char = '\u{20bf}';

/// The construction invariant: both parts are valid hostnames (hence
/// non-empty and plain ASCII) and the combined length leaves room for the
/// canonical longer encoding.
pub open spec fn hrn_valid(user: Seq<char>, domain: Seq<char>) -> bool {
    &&& valid_hostname(user)
    &&& valid_hostname(domain)
    &&& user.len() + domain.len() + REQUIRED_EXTRA_LEN <= 255
}

/// The mathematical content of a [`HumanReadableName`]: its two parts as
/// character sequences.
pub struct HrnView {
    /// The `user` part.
    pub user: Seq<char>,
    /// The `domain` part.
    pub domain: Seq<char>,
}

/// The binary form: each part as a one-byte length prefix followed by its
/// raw ASCII bytes.
pub open spec fn hrn_encoding(v: HrnView) -> Seq<u8> {
    seq![v.user.len() as u8] + ascii_bytes(v.user) + seq![v.domain.len() as u8] + ascii_bytes(
        v.domain,
    )
}

/// The binary decoder at `pos`: two length-prefixed texts, then the
/// construction invariant, enforced identically for wire values and for
/// programmatically built ones.
pub open spec fn parse_hrn(b: Seq<u8>, pos: int) -> Result<(HrnView, int), DecodeError> {
    match parse_len_prefixed_text(b, pos) {
        Err(e) => Err(e),
        Ok((user, p1)) => match parse_len_prefixed_text(b, p1) {
            Err(e) => Err(e),
            Ok((domain, p2)) => if hrn_valid(user, domain) {
                Ok((HrnView { user, domain }, p2))
            } else {
                Err(DecodeError::InvalidValue)
            },
        },
    }
}

/// The text form with the optional leading currency marker removed.
pub open spec fn strip_currency_marker(s: Seq<char>) -> Seq<char> {
    if s.len() > 0 && s[0] == CURRENCY_MARKER {
        s.skip(1)
    } else {
        s
    }
}

/// Whether `s` holds an `'@'`.
pub open spec fn has_at_sign(s: Seq<char>) -> bool {
    exists|k: int| 0 <= k < s.len() && #[trigger] s[k] == '@'
}

/// The position of the first `'@'` of `s`.
pub open spec fn first_at_sign(s: Seq<char>) -> int
    decreases s.len(),
{
    if s.len() == 0 {
        0
    } else if s[0] == '@' {
        0
    } else {
        1 + first_at_sign(s.skip(1))
    }
}

/// The first `'@'` really is the first: an `'@'` with none before it
/// stands at [`first_at_sign`].
pub proof fn lemma_first_at_sign(s: Seq<char>, i: int)
    requires
        0 <= i < s.len(),
        s[i] == '@',
        forall|j: int| 0 <= j < i ==> s[j] != '@',
    ensures
        first_at_sign(s) == i,
    decreases i,
{
    if s[0] == '@' {
    } else {
        lemma_first_at_sign(s.skip(1), i - 1);
    }
}

/// A two-part payment identifier: a non-empty ASCII `user` and `domain`
/// whose combined length stays within the 255-byte label budget. No
/// partially-valid instance is observable: construction fails atomically.
#[derive(Debug, Hash, PartialEq, Eq)]
pub struct HumanReadableName {
    user: String,
    domain: String,
}

impl Clone for HumanReadableName {
    fn clone(&self) -> (r: Self)
        ensures
            r == *self,
    {
        proof {
            use_type_invariant(self);
        }
        HumanReadableName { user: self.user.clone(), domain: self.domain.clone() }
    }
}

impl View for HumanReadableName {
    type V = HrnView;

    closed spec fn view(&self) -> HrnView {
        HrnView { user: self.user@, domain: self.domain@ }
    }
}

impl HumanReadableName {
    /// Every reachable instance satisfies the construction invariant.
    #[verifier::type_invariant]
    pub open spec fn type_inv(&self) -> bool {
        hrn_valid(self@.user, self@.domain)
    }

    /// Constructs a name from the `user` and `domain` parts: `Ok` exactly
    /// when both are valid hostnames and the combined length fits the
    /// budget. The failure carries no finer reason.
    pub fn new(user: String, domain: String) -> (r: Result<HumanReadableName, ()>)
        ensures
            match r {
                Ok(h) => h@.user == user@ && h@.domain == domain@ && hrn_valid(user@, domain@),
                Err(_) => !hrn_valid(user@, domain@),
            },
    {
        let us = user.as_str();
        let ds = domain.as_str();
        proof {
            if hrn_valid(user@, domain@) {
                lemma_valid_hostname_ascii(user@);
                lemma_valid_hostname_ascii(domain@);
                vstd::string::is_ascii_spec_bytes(us);
                vstd::string::is_ascii_spec_bytes(ds);
                assert(us.spec_bytes() =~= Seq::new(user@.len(), |i| user@.index(i) as u8));
                assert(ds.spec_bytes() =~= Seq::new(domain@.len(), |i| domain@.index(i) as u8));
            }
        }
        let ul = us.len();
        let dl = ds.len();
        if ul > 255 || dl > 255 || ul + dl + REQUIRED_EXTRA_LEN > 255 {
            return Err(());
        }
        if us.is_empty() || ds.is_empty() {
            return Err(());
        }
        if !is_valid_hostname(us) || !is_valid_hostname(ds) {
            return Err(());
        }
        proof {
            lemma_valid_hostname_ascii(user@);
            lemma_valid_hostname_ascii(domain@);
            vstd::string::is_ascii_spec_bytes(us);
            vstd::string::is_ascii_spec_bytes(ds);
            assert(us.spec_bytes() =~= Seq::new(user@.len(), |i| user@.index(i) as u8));
            assert(ds.spec_bytes() =~= Seq::new(domain@.len(), |i| domain@.index(i) as u8));
        }
        Ok(HumanReadableName { user, domain })
    }

    /// Constructs a name from the standard text form `user@domain`,
    /// stripping one leading currency marker if present, then splitting at
    /// the first `'@'`; no `'@'` is a failure.
    pub fn from_encoded(encoded: &str) -> (r: Result<HumanReadableName, ()>)
        ensures
            ({
                let t = strip_currency_marker(encoded@);
                let user = t.take(first_at_sign(t));
                let domain = t.skip(first_at_sign(t) + 1);
                match r {
                    Ok(h) => has_at_sign(t) && h@.user == user && h@.domain == domain && hrn_valid(
                        user,
                        domain,
                    ),
                    Err(_) => !has_at_sign(t) || !hrn_valid(user, domain),
                }
            }),
    {
        let n = encoded.unicode_len();
        let stripped: &str = if n > 0 && encoded.get_char(0) == CURRENCY_MARKER {
            encoded.substring_char(1, n)
        } else {
            encoded
        };
        let m = stripped.unicode_len();
        let mut at_pos: usize = 0;
        while at_pos < m && stripped.get_char(at_pos) != '@'
            invariant
                m == stripped@.len(),
                at_pos <= m,
                forall|j: int| 0 <= j < at_pos ==> stripped@[j] != '@',
            decreases m - at_pos,
        {
            at_pos = at_pos + 1;
        }
        if at_pos == m {
            return Err(());
        }
        proof {
            lemma_first_at_sign(stripped@, at_pos as int);
        }
        let user = stripped.substring_char(0, at_pos);
        let domain = stripped.substring_char(at_pos + 1, m);
        Self::new(String::from_str(user), String::from_str(domain))
    }

    /// The `user` part.
    pub fn user(&self) -> (r: &str)
        ensures
            r@ == self@.user,
    {
        self.user.as_str()
    }

    /// The `domain` part.
    pub fn domain(&self) -> (r: &str)
        ensures
            r@ == self@.domain,
    {
        self.domain.as_str()
    }

    /// Appends the binary form to `out`. Encoding a constructed instance
    /// cannot fail: both parts are ASCII within the length budget, so each
    /// length fits its one-byte prefix.
    pub fn write(&self, out: &mut Vec<u8>)
        ensures
            final(out)@ == old(out)@ + hrn_encoding(self@),
    {
        let us = self.user.as_str();
        let ds = self.domain.as_str();
        proof {
            use_type_invariant(self);
            lemma_valid_hostname_ascii(self@.user);
            lemma_valid_hostname_ascii(self@.domain);
            lemma_ascii_round_trip(self@.user);
            lemma_ascii_round_trip(self@.domain);
            vstd::string::is_ascii_spec_bytes(us);
            vstd::string::is_ascii_spec_bytes(ds);
            assert(us.spec_bytes() =~= ascii_bytes(self@.user));
            assert(ds.spec_bytes() =~= ascii_bytes(self@.domain));
        }
        let ub = us.as_bytes();
        let db = ds.as_bytes();
        out.push(ub.len() as u8);
        push_bytes(out, ub);
        out.push(db.len() as u8);
        push_bytes(out, db);
        proof {
            assert(out@ =~= old(out)@ + hrn_encoding(self@));
        }
    }

    /// Reads the binary form at `pos`, exactly as [`parse_hrn`] describes:
    /// a declared length never reads past the end of the input, and a wire
    /// value passes the same construction invariant as a built one.
    pub fn read(b: &[u8], pos: usize) -> (r: Result<(HumanReadableName, usize), DecodeError>)
        ensures
            match r {
                Ok(p) => parse_hrn(b@, pos as int) == Ok::<_, DecodeError>((p.0@, p.1 as int)),
                Err(e) => parse_hrn(b@, pos as int) == Err::<(HrnView, int), _>(e),
            },
    {
        let (user, p1) = match read_len_prefixed_text(b, pos) {
            Ok(p) => p,
            Err(e) => {
                return Err(e);
            },
        };
        let (domain, p2) = match read_len_prefixed_text(b, p1) {
            Ok(p) => p,
            Err(e) => {
                return Err(e);
            },
        };
        match Self::new(user, domain) {
            Ok(h) => Ok((h, p2)),
            Err(_) => Err(DecodeError::InvalidValue),
        }
    }
}

/// Binary round trip: decoding the binary form of a valid name yields the
/// name itself and consumes the whole encoding.
pub proof fn lemma_hrn_binary_round_trip(v: HrnView)
    requires
        hrn_valid(v.user, v.domain),
    ensures
        parse_hrn(hrn_encoding(v), 0) == Ok::<_, DecodeError>((
            v,
            hrn_encoding(v).len() as int,
        )),
{
    let b = hrn_encoding(v);
    lemma_valid_hostname_ascii(v.user);
    lemma_valid_hostname_ascii(v.domain);
    lemma_ascii_round_trip(v.user);
    lemma_ascii_round_trip(v.domain);
    let ul = v.user.len() as int;
    let dl = v.domain.len() as int;
    assert(b[0] == v.user.len() as u8);
    assert(b.subrange(1, 1 + ul) =~= ascii_bytes(v.user));
    assert(b[1 + ul] == v.domain.len() as u8);
    assert(b.subrange(2 + ul, 2 + ul + dl) =~= ascii_bytes(v.domain));
}

/// Text round trip: the text form of a valid name — its parts joined by
/// `'@'`, with or without the leading currency marker — parses back to
/// the same two parts.
pub proof fn lemma_hrn_text_round_trip(v: HrnView)
    requires
        hrn_valid(v.user, v.domain),
    ensures
        ({
            let t = v.user + seq!['@'] + v.domain;
            &&& strip_currency_marker(t) == t
            &&& strip_currency_marker(seq![CURRENCY_MARKER] + t) == t
            &&& has_at_sign(t)
            &&& t.take(first_at_sign(t)) == v.user
            &&& t.skip(first_at_sign(t) + 1) == v.domain
        }),
{
    let t = v.user + seq!['@'] + v.domain;
    assert(t[v.user.len() as int] == '@');
    assert(forall|j: int| 0 <= j < v.user.len() ==> t[j] == v.user[j]);
    assert forall|j: int| 0 <= j < v.user.len() implies t[j] != '@' by {
        assert(crate::hostname::is_hostname_char(v.user[j]));
    }
    lemma_first_at_sign(t, v.user.len() as int);
    assert(t.take(first_at_sign(t)) =~= v.user);
    assert(t.skip(first_at_sign(t) + 1) =~= v.domain);
    assert(t[0] == v.user[0]);
    assert(crate::hostname::is_hostname_char(v.user[0]));
    assert((seq![CURRENCY_MARKER] + t).skip(1) =~= t);
}

} // verus!
