//! The tagged message envelope carrying DNSSEC queries and proofs.
//!
//! A [`DNSResolverMessage`] is either a query for a DNSSEC proof or the
//! proof itself. Each variant owns a globally reserved TLV tag used both
//! for wire dispatch and for declaring which tags this protocol claims in
//! the shared tag space. The value payload is the name's text behind a
//! one-byte length prefix; a proof additionally carries its
//! authentication chain behind a two-byte big-endian length prefix. The
//! chain is opaque to this crate: carried, never parsed.

use crate::dns_name::{valid_dns_name, DnsName};
use crate::hostname::lemma_valid_hostname_ascii;
use crate::wire::{
    ascii_bytes, lemma_ascii_round_trip, parse_len_prefixed_text, push_bytes,
    read_len_prefixed_text, DecodeError,
};
use vstd::prelude::*;
use vstd::slice::{slice_index_get, slice_subrange, slice_to_vec};
use vstd::string::StringSliceAdditionalSpecFns;

verus! {

/// The TLV tag reserved for [`DNSSECQuery`].
pub const DNSSEC_QUERY_TYPE: u64 = 65536;

/// The TLV tag reserved for [`DNSSECProof`].
pub const DNSSEC_PROOF_TYPE: u64 = 65538;

/// The largest proof chain the two-byte length prefix can declare.
pub const MAX_PROOF_LEN: usize = 65535;

/// A message sent to a DNSSEC prover requesting a proof for the given
/// name.
#[derive(Clone, Debug, Hash, PartialEq, Eq)]
pub struct DNSSECQuery(pub DnsName);

/// A message sent in response to a [`DNSSECQuery`], containing a DNSSEC
/// authentication chain. The name may be less specific than the query
/// when a wildcard record covers it, but is never empty.
#[derive(Clone, Debug, Hash, PartialEq, Eq)]
pub struct DNSSECProof {
    /// The name the proof speaks about.
    pub name: DnsName,
    /// The binary authentication chain, opaque to this crate.
    pub proof: Vec<u8>,
}

/// The possible messages used to request and receive DNSSEC proofs.
#[derive(Clone, Debug, Hash, PartialEq, Eq)]
pub enum DNSResolverMessage {
    /// A query requesting a DNSSEC proof.
    DNSSECQuery(DNSSECQuery),
    /// A response containing a DNSSEC proof.
    DNSSECProof(DNSSECProof),
}

/// The mathematical content of a [`DNSSECQuery`].
pub struct QueryView {
    /// The text of the queried name.
    pub name: Seq<char>,
}

/// The mathematical content of a [`DNSSECProof`].
pub struct ProofView {
    /// The text of the proven name.
    pub name: Seq<char>,
    /// The authentication chain bytes.
    pub proof: Seq<u8>,
}

/// The mathematical content of a [`DNSResolverMessage`].
pub enum MessageView {
    /// A query.
    DNSSECQuery(QueryView),
    /// A proof.
    DNSSECProof(ProofView),
}

impl View for DNSSECQuery {
    type V = QueryView;

    open spec fn view(&self) -> QueryView {
        QueryView { name: self.0@ }
    }
}

impl View for DNSSECProof {
    type V = ProofView;

    open spec fn view(&self) -> ProofView {
        ProofView { name: self.name@, proof: self.proof@ }
    }
}

impl View for DNSResolverMessage {
    type V = MessageView;

    open spec fn view(&self) -> MessageView {
        match self {
            DNSResolverMessage::DNSSECQuery(q) => MessageView::DNSSECQuery(q@),
            DNSResolverMessage::DNSSECProof(p) => MessageView::DNSSECProof(p@),
        }
    }
}

/// A well-formed message: the name is valid (guaranteed for every
/// reachable [`DnsName`]) and a proof chain fits its two-byte length
/// prefix.
pub open spec fn message_wf(m: MessageView) -> bool {
    match m {
        MessageView::DNSSECQuery(q) => valid_dns_name(q.name),
        MessageView::DNSSECProof(p) => valid_dns_name(p.name) && p.proof.len() <= MAX_PROOF_LEN,
    }
}

/// The name's wire form: a one-byte length prefix and the raw ASCII text.
pub open spec fn name_encoding(name: Seq<char>) -> Seq<u8> {
    seq![name.len() as u8] + ascii_bytes(name)
}

/// A two-byte big-endian length prefix.
pub open spec fn u16_be(n: int) -> Seq<u8> {
    seq![(n / 256) as u8, (n % 256) as u8]
}

/// The value payload of a message: the name for a query; the name, the
/// chain's length prefix and the chain for a proof.
pub open spec fn encode_message(m: MessageView) -> Seq<u8> {
    match m {
        MessageView::DNSSECQuery(q) => name_encoding(q.name),
        MessageView::DNSSECProof(p) => name_encoding(p.name) + u16_be(p.proof.len() as int)
            + p.proof,
    }
}

/// The name decoder at `pos`: a length-prefixed text that must pass both
/// the hostname rules and the DNS structure rules; anything else is an
/// invalid value.
pub open spec fn parse_dns_name(b: Seq<u8>, pos: int) -> Result<(Seq<char>, int), DecodeError> {
    match parse_len_prefixed_text(b, pos) {
        Err(e) => Err(e),
        Ok((name, next)) => if valid_dns_name(name) {
            Ok((name, next))
        } else {
            Err(DecodeError::InvalidValue)
        },
    }
}

/// The message decoder: dispatch on the tag, then the name, then — for a
/// proof — the length-prefixed chain. A tag this protocol does not claim
/// is an invalid value; a declared length past the end of the input is a
/// short read. Trailing bytes after the value are left for the caller.
pub open spec fn parse_message(tag: u64, b: Seq<u8>) -> Result<MessageView, DecodeError> {
    if tag == DNSSEC_QUERY_TYPE {
        match parse_dns_name(b, 0) {
            Err(e) => Err(e),
            Ok((name, _)) => Ok(MessageView::DNSSECQuery(QueryView { name })),
        }
    } else if tag == DNSSEC_PROOF_TYPE {
        match parse_dns_name(b, 0) {
            Err(e) => Err(e),
            Ok((name, p1)) => if p1 + 2 > b.len() {
                Err(DecodeError::ShortRead)
            } else {
                let l = b[p1] as int * 256 + b[p1 + 1] as int;
                if p1 + 2 + l > b.len() {
                    Err(DecodeError::ShortRead)
                } else {
                    Ok(
                        MessageView::DNSSECProof(
                            ProofView { name, proof: b.subrange(p1 + 2, p1 + 2 + l) },
                        ),
                    )
                }
            },
        }
    } else {
        Err(DecodeError::InvalidValue)
    }
}

/// Appends a name's wire form to `out`.
fn write_name(n: &DnsName, out: &mut Vec<u8>)
    ensures
        final(out)@ == old(out)@ + name_encoding(n@),
        valid_dns_name(n@),
{
    let s = n.as_str();
    proof {
        use_type_invariant(n);
        lemma_valid_hostname_ascii(n@);
        lemma_ascii_round_trip(n@);
        vstd::string::is_ascii_spec_bytes(s);
        assert(s.spec_bytes() =~= ascii_bytes(n@));
    }
    let sb = s.as_bytes();
    out.push(sb.len() as u8);
    push_bytes(out, sb);
    proof {
        assert(final(out)@ =~= old(out)@ + name_encoding(n@));
    }
}

/// Reads a name at `pos`, exactly as [`parse_dns_name`] describes.
fn read_dns_name(b: &[u8], pos: usize) -> (r: Result<(DnsName, usize), DecodeError>)
    ensures
        match r {
            Ok(p) => parse_dns_name(b@, pos as int) == Ok::<_, DecodeError>((p.0@, p.1 as int)),
            Err(e) => parse_dns_name(b@, pos as int) == Err::<(Seq<char>, int), _>(e),
        },
{
    let (text, next) = match read_len_prefixed_text(b, pos) {
        Ok(p) => p,
        Err(e) => {
            return Err(e);
        },
    };
    match DnsName::new(text) {
        Ok(n) => Ok((n, next)),
        Err(_) => Err(DecodeError::InvalidValue),
    }
}

impl DNSResolverMessage {
    /// Reports whether `tlv_type` is a TLV tag this protocol claims. The
    /// check is total and side-effect-free; any other tag is left for
    /// other handlers.
    pub fn is_known_type(tlv_type: u64) -> (r: bool)
        ensures
            r == (tlv_type == DNSSEC_QUERY_TYPE || tlv_type == DNSSEC_PROOF_TYPE),
    {
        match tlv_type {
            DNSSEC_QUERY_TYPE | DNSSEC_PROOF_TYPE => true,
            _ => false,
        }
    }

    /// The TLV tag of this message.
    pub fn tlv_type(&self) -> (r: u64)
        ensures
            r == spec_tlv_type(self@),
    {
        match self {
            DNSResolverMessage::DNSSECQuery(_) => DNSSEC_QUERY_TYPE,
            DNSResolverMessage::DNSSECProof(_) => DNSSEC_PROOF_TYPE,
        }
    }

    /// A short human-readable label for the message kind.
    pub fn msg_type(&self) -> (r: &'static str)
        ensures
            self@ matches MessageView::DNSSECQuery(_) ==> r@ == "DNS(SEC) Query"@,
            self@ matches MessageView::DNSSECProof(_) ==> r@ == "DNSSEC Proof"@,
    {
        match self {
            DNSResolverMessage::DNSSECQuery(_) => "DNS(SEC) Query",
            DNSResolverMessage::DNSSECProof(_) => "DNSSEC Proof",
        }
    }

    /// Appends the value payload to `out`. Encoding a well-formed message
    /// never fails: a name longer than 255 bytes cannot exist, so its
    /// one-byte length prefix always suffices.
    pub fn write(&self, out: &mut Vec<u8>)
        requires
            self@ matches MessageView::DNSSECProof(p) ==> p.proof.len() <= MAX_PROOF_LEN,
        ensures
            final(out)@ == old(out)@ + encode_message(self@),
            message_wf(self@),
    {
        match self {
            DNSResolverMessage::DNSSECQuery(DNSSECQuery(q)) => {
                write_name(q, out);
            },
            DNSResolverMessage::DNSSECProof(DNSSECProof { name, proof }) => {
                write_name(name, out);
                let l = proof.len();
                out.push((l / 256) as u8);
                out.push((l % 256) as u8);
                push_bytes(out, proof.as_slice());
                proof {
                    assert(final(out)@ =~= old(out)@ + encode_message(self@));
                }
            },
        }
    }

    /// Decodes the value payload of the record identified by
    /// `message_type`, exactly as [`parse_message`] describes: a declared
    /// length never reads past the end of the input, and every returned
    /// message is well-formed.
    pub fn read(b: &[u8], message_type: u64) -> (r: Result<DNSResolverMessage, DecodeError>)
        ensures
            match r {
                Ok(m) => parse_message(message_type, b@) == Ok::<_, DecodeError>(m@)
                    && message_wf(m@),
                Err(e) => parse_message(message_type, b@) == Err::<MessageView, _>(e),
            },
    {
        if message_type == DNSSEC_QUERY_TYPE {
            match read_dns_name(b, 0) {
                Ok((name, _)) => Ok(DNSResolverMessage::DNSSECQuery(DNSSECQuery(name))),
                Err(e) => Err(e),
            }
        } else if message_type == DNSSEC_PROOF_TYPE {
            let (name, p1) = match read_dns_name(b, 0) {
                Ok(p) => p,
                Err(e) => {
                    return Err(e);
                },
            };
            if b.len() - p1 < 2 {
                return Err(DecodeError::ShortRead);
            }
            let hi = *slice_index_get(b, p1) as usize;
            let lo = *slice_index_get(b, p1 + 1) as usize;
            let l = hi * 256 + lo;
            if b.len() - (p1 + 2) < l {
                return Err(DecodeError::ShortRead);
            }
            let chain = slice_to_vec(slice_subrange(b, p1 + 2, p1 + 2 + l));
            Ok(DNSResolverMessage::DNSSECProof(DNSSECProof { name, proof: chain }))
        } else {
            Err(DecodeError::InvalidValue)
        }
    }
}

/// The TLV tag of a message's content.
pub open spec fn spec_tlv_type(m: MessageView) -> u64 {
    match m {
        MessageView::DNSSECQuery(_) => DNSSEC_QUERY_TYPE,
        MessageView::DNSSECProof(_) => DNSSEC_PROOF_TYPE,
    }
}

/// Round trip: decoding the encoding of a well-formed message under its
/// own tag yields the message itself.
pub proof fn lemma_message_round_trip(m: MessageView)
    requires
        message_wf(m),
    ensures
        parse_message(spec_tlv_type(m), encode_message(m)) == Ok::<_, DecodeError>(m),
{
    match m {
        MessageView::DNSSECQuery(q) => {
            let b = encode_message(m);
            lemma_valid_hostname_ascii(q.name);
            lemma_ascii_round_trip(q.name);
            let nl = q.name.len() as int;
            assert(b[0] == q.name.len() as u8);
            assert(b.subrange(1, 1 + nl) =~= ascii_bytes(q.name));
        },
        MessageView::DNSSECProof(p) => {
            let b = encode_message(m);
            lemma_valid_hostname_ascii(p.name);
            lemma_ascii_round_trip(p.name);
            let nl = p.name.len() as int;
            let l = p.proof.len() as int;
            assert(b[0] == p.name.len() as u8);
            assert(b.subrange(1, 1 + nl) =~= ascii_bytes(p.name));
            assert(b[1 + nl] == (l / 256) as u8);
            assert(b[2 + nl] == (l % 256) as u8);
            assert((l / 256) * 256 + l % 256 == l);
            assert(b.subrange(3 + nl, 3 + nl + l) =~= p.proof);
        },
    }
}

/// A handler for incoming DNS(SEC) queries and DNSSEC proofs. The
/// surrounding messaging system supplies the reply, delivery and send
/// contexts as its own types; this crate only defines the shapes passed
/// across the boundary.
pub trait DNSResolverMessageHandler {
    /// The reply path handed along with a query, when one is available.
    type Responder;

    /// Instructions for responding to a query.
    type ResponseInstruction;

    /// The context correlating a proof to the outstanding query.
    type DeliveryContext;

    /// Instructions for sending a self-originated message.
    type SendInstructions;

    /// Handles a [`DNSSECQuery`]: a node serving DNS resolution to third
    /// parties should respond with a [`DNSSECProof`] message.
    fn handle_dnssec_query(
        &self,
        message: DNSSECQuery,
        responder: Option<Self::Responder>,
    ) -> Option<(DNSResolverMessage, Self::ResponseInstruction)>;

    /// Handles a [`DNSSECProof`], presumably in response to a query we
    /// sent: with it the DNS record we requested can be validated.
    fn handle_dnssec_proof(&self, message: DNSSECProof, context: Self::DeliveryContext);

    /// Releases any messages to be sent outside the request/response
    /// cycle; none by default.
    fn release_pending_messages(&self) -> Vec<(DNSResolverMessage, Self::SendInstructions)> {
        Vec::new()
    }
}

} // verus!
