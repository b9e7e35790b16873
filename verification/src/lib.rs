//! A compact binary codec for DNSSEC proof messaging.
//!
//! Two independent units compose the crate: a tagged message envelope
//! ([`message::DNSResolverMessage`]) carrying DNSSEC queries and proofs as
//! TLV value payloads, and a two-part human-readable payment identifier
//! ([`hrn::HumanReadableName`]) with its own text and binary encodings.
//!
//! Every decoder rejects malformed input deterministically rather than
//! silently accepting it: a declared length that exceeds the remaining
//! bytes, text that is not plain ASCII, or a name that fails the hostname
//! or DNS structure rules. Values are immutable and constructed
//! fully-formed or not at all.

pub mod dns_name;
pub mod hostname;
pub mod hrn;
pub mod message;
pub mod wire;

pub use dns_name::DnsName;
pub use hrn::HumanReadableName;
pub use message::{DNSResolverMessage, DNSResolverMessageHandler, DNSSECProof, DNSSECQuery};
pub use wire::DecodeError;
