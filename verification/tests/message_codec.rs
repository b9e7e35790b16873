//! Runtime tests for the message envelope codec.

use dns_resolution::message::{DNSSEC_PROOF_TYPE, DNSSEC_QUERY_TYPE};
use dns_resolution::DNSResolverMessageHandler;
use dns_resolution::{DNSResolverMessage, DNSSECProof, DNSSECQuery, DecodeError, DnsName};

fn name(text: &str) -> DnsName {
    DnsName::new(text.to_string()).expect("valid name")
}

#[test]
fn known_types_are_the_reserved_tags() {
    assert!(DNSResolverMessage::is_known_type(65536));
    assert!(DNSResolverMessage::is_known_type(65538));
    assert!(!DNSResolverMessage::is_known_type(1));
    assert!(!DNSResolverMessage::is_known_type(65537));
    assert!(!DNSResolverMessage::is_known_type(0));
}

#[test]
fn unknown_tag_is_invalid_value() {
    let r = DNSResolverMessage::read(&[11u8], 1);
    assert_eq!(r, Err(DecodeError::InvalidValue));
}

#[test]
fn tlv_types_match_variants() {
    let q = DNSResolverMessage::DNSSECQuery(DNSSECQuery(name("example.com")));
    let p = DNSResolverMessage::DNSSECProof(DNSSECProof {
        name: name("example.com"),
        proof: vec![1, 2, 3],
    });
    assert_eq!(q.tlv_type(), DNSSEC_QUERY_TYPE);
    assert_eq!(p.tlv_type(), DNSSEC_PROOF_TYPE);
    assert_eq!(q.msg_type(), "DNS(SEC) Query");
    assert_eq!(p.msg_type(), "DNSSEC Proof");
}

#[test]
fn query_encoding_is_length_prefixed_ascii() {
    let q = DNSResolverMessage::DNSSECQuery(DNSSECQuery(name("example.com")));
    let mut out = Vec::new();
    q.write(&mut out);
    let expected: Vec<u8> = {
        let mut v = vec![11u8];
        v.extend_from_slice(b"example.com");
        v
    };
    assert_eq!(out, expected);
}

#[test]
fn proof_encoding_appends_length_prefixed_chain() {
    let p = DNSResolverMessage::DNSSECProof(DNSSECProof {
        name: name("example.com"),
        proof: vec![9, 8, 7],
    });
    let mut out = Vec::new();
    p.write(&mut out);
    let mut expected = vec![11u8];
    expected.extend_from_slice(b"example.com");
    expected.extend_from_slice(&[0, 3, 9, 8, 7]);
    assert_eq!(out, expected);
}

#[test]
fn query_round_trip() {
    let q = DNSResolverMessage::DNSSECQuery(DNSSECQuery(name("mattcorallo.com")));
    let mut out = Vec::new();
    q.write(&mut out);
    let back = DNSResolverMessage::read(&out, q.tlv_type()).expect("decodes");
    assert_eq!(back, q);
}

#[test]
fn proof_round_trip() {
    let p = DNSResolverMessage::DNSSECProof(DNSSECProof {
        name: name("sub.example.com"),
        proof: (0u16..300).map(|x| (x % 256) as u8).collect(),
    });
    let mut out = Vec::new();
    p.write(&mut out);
    let back = DNSResolverMessage::read(&out, p.tlv_type()).expect("decodes");
    assert_eq!(back, p);
}

#[test]
fn empty_proof_chain_round_trips() {
    let p = DNSResolverMessage::DNSSECProof(DNSSECProof {
        name: name("example.com"),
        proof: vec![],
    });
    let mut out = Vec::new();
    p.write(&mut out);
    assert_eq!(&out[out.len() - 2..], &[0, 0]);
    let back = DNSResolverMessage::read(&out, DNSSEC_PROOF_TYPE).expect("decodes");
    assert_eq!(back, p);
}

#[test]
fn oversized_name_length_prefix_is_short_read() {
    // The prefix declares five bytes; only one follows.
    let r = DNSResolverMessage::read(&[5, b'a'], DNSSEC_QUERY_TYPE);
    assert_eq!(r, Err(DecodeError::ShortRead));
    let r = DNSResolverMessage::read(&[5, b'a'], DNSSEC_PROOF_TYPE);
    assert_eq!(r, Err(DecodeError::ShortRead));
}

#[test]
fn oversized_chain_length_prefix_is_short_read() {
    let mut buf = vec![1, b'a'];
    buf.extend_from_slice(&[0, 4, 1, 2]);
    let r = DNSResolverMessage::read(&buf, DNSSEC_PROOF_TYPE);
    assert_eq!(r, Err(DecodeError::ShortRead));
}

#[test]
fn missing_chain_length_prefix_is_short_read() {
    let buf = vec![1, b'a', 0];
    let r = DNSResolverMessage::read(&buf, DNSSEC_PROOF_TYPE);
    assert_eq!(r, Err(DecodeError::ShortRead));
}

#[test]
fn empty_input_is_short_read() {
    let r = DNSResolverMessage::read(&[], DNSSEC_QUERY_TYPE);
    assert_eq!(r, Err(DecodeError::ShortRead));
}

#[test]
fn non_ascii_name_bytes_are_invalid_value() {
    // Valid UTF-8, but 0xc3 0xa4 decodes outside the hostname set.
    let buf = vec![3, 0xc3, 0xa4, b'x'];
    let r = DNSResolverMessage::read(&buf, DNSSEC_QUERY_TYPE);
    assert_eq!(r, Err(DecodeError::InvalidValue));
}

#[test]
fn invalid_utf8_name_bytes_are_invalid_value() {
    let buf = vec![2, 0xff, 0xfe];
    let r = DNSResolverMessage::read(&buf, DNSSEC_QUERY_TYPE);
    assert_eq!(r, Err(DecodeError::InvalidValue));
}

#[test]
fn name_with_long_label_is_invalid_value() {
    // 64-byte label: passes the hostname character rules but fails the
    // DNS structure check, so the name conversion rejects it.
    let mut label = vec![b'a'; 64];
    label.extend_from_slice(b".com");
    let mut buf = vec![label.len() as u8];
    buf.extend_from_slice(&label);
    let r = DNSResolverMessage::read(&buf, DNSSEC_QUERY_TYPE);
    assert_eq!(r, Err(DecodeError::InvalidValue));
}

#[test]
fn dns_name_construction_follows_the_rules() {
    assert!(DnsName::new("example.com".to_string()).is_ok());
    assert!(DnsName::new("a-b.example.com".to_string()).is_ok());
    // 63-byte labels are the longest the structure rules accept.
    let long_label = "a".repeat(63);
    assert!(DnsName::new(format!("{}.com", long_label)).is_ok());
    assert!(DnsName::new(format!("{}a.com", long_label)).is_err());
    assert!(DnsName::new(String::new()).is_err());
    assert!(DnsName::new("exämple.com".to_string()).is_err());
    assert!(DnsName::new("-example.com".to_string()).is_err());
    assert!(DnsName::new("example-.com".to_string()).is_err());
    // Underscores belong to the DNS structure rules, not the hostname
    // rules, so they are rejected here.
    assert!(DnsName::new("_dnslink.example.com".to_string()).is_err());
}

#[test]
fn dns_name_length_boundary() {
    // Four labels of 63, 63, 63 and 62 bytes: 254 bytes in all, the
    // longest text whose form with the root dot still fits 255 bytes.
    let fits = format!("{}.{}.{}.{}", "a".repeat(63), "b".repeat(63), "c".repeat(63), "d".repeat(62));
    assert_eq!(fits.len(), 254);
    assert!(DnsName::new(fits).is_ok());
    let too_long = format!("{}.{}.{}.{}", "a".repeat(63), "b".repeat(63), "c".repeat(63), "d".repeat(63));
    assert_eq!(too_long.len(), 255);
    assert!(DnsName::new(too_long).is_err());
}

#[test]
fn as_str_returns_the_text() {
    let n = name("example.com");
    assert_eq!(n.as_str(), "example.com");
}

#[test]
fn trailing_bytes_after_the_value_are_left_alone() {
    let mut buf = vec![1, b'a'];
    buf.push(0x55);
    let r = DNSResolverMessage::read(&buf, DNSSEC_QUERY_TYPE).expect("decodes");
    assert_eq!(r, DNSResolverMessage::DNSSECQuery(DNSSECQuery(name("a"))));
}

struct NoopHandler;

impl DNSResolverMessageHandler for NoopHandler {
    type Responder = ();
    type ResponseInstruction = ();
    type DeliveryContext = u32;
    type SendInstructions = ();

    fn handle_dnssec_query(
        &self,
        _message: DNSSECQuery,
        _responder: Option<()>,
    ) -> Option<(DNSResolverMessage, ())> {
        None
    }

    fn handle_dnssec_proof(&self, _message: DNSSECProof, _context: u32) {}
}

#[test]
fn handler_releases_nothing_by_default() {
    let h = NoopHandler;
    assert!(h.release_pending_messages().is_empty());
}
