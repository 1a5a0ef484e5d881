//! Determine the real client address, scheme, host and forwarding proxy for a
//! request that may have passed through reverse proxies.
//!
//! Reverse proxies announce forwarding information through the `Forwarded`
//! header (RFC 7239) or the legacy `X-Forwarded-*` headers, but those headers
//! are attacker-controllable unless the immediate peer is a known, trusted
//! proxy. Starting from the observed TCP peer address, the resolver walks
//! backward through the chain of self-reported hops, treating each hop's
//! claims as authoritative only while the hop itself is a trusted proxy, and
//! stops at the first hop that is not trusted: that hop's claimed address is
//! the real client.
//!
//! [`Config`] holds the trusted network prefixes and one trust flag per
//! forwarding header; [`Trusted::from`] resolves a request — seen through the
//! [`RequestInformation`] capability trait — against it. The whole resolution
//! is specified by [`spec_resolve`], a pure function of the peer address, the
//! request data and the configuration, and proved of the resolver.

use vstd::prelude::*;

mod config;
mod extract;
mod net;
mod text;
mod trusted;

pub use config::local_trusted_networks;
pub use config::spec_added_network;
pub use config::spec_ip_trusted;
pub use config::Config;
pub use config::ConfigView;
pub use config::ParseError;
pub use extract::spec_default_host;
pub use extract::ReqView;
pub use extract::RequestData;
pub use extract::RequestInformation;
pub use net::parsed_ip;
pub use net::parsed_net;
pub use net::spec_host_net;
pub use net::spec_net_contains;
pub use net::spec_v6_of_groups;
pub use net::IpAddress;
pub use net::IpNetwork;
pub use text::bare_address;
pub use text::lemma_find_eq_agreement;
pub use text::lemma_lower_char_agreement;
pub use text::lemma_lower_pointwise;
pub use text::lemma_trim_lower_agreement;
pub use text::lower_char;
pub use text::spec_bare_address;
pub use text::spec_find;
pub use text::spec_lower;
pub use text::spec_parse_u16;
pub use text::spec_rfind;
pub use text::spec_split;
pub use text::spec_split_all;
pub use text::spec_trim;
pub use text::spec_unquote;
pub use text::unquote;
pub use trusted::empty_hop;
pub use trusted::lemma_all_flags_off_resolution;
pub use trusted::lemma_param_key_case_insensitive;
pub use trusted::lemma_record_walk_case_insensitive;
pub use trusted::lemma_resolution_deterministic;
pub use trusted::lemma_untrusted_peer_resolution;
pub use trusted::spec_forwarded_state;
pub use trusted::spec_forwarded_walk;
pub use trusted::spec_host_of;
pub use trusted::spec_last_value;
pub use trusted::spec_param_key;
pub use trusted::spec_param_value;
pub use trusted::spec_port_of;
pub use trusted::spec_process_record;
pub use trusted::spec_record_walk;
pub use trusted::spec_resolve;
pub use trusted::spec_xff_state;
pub use trusted::spec_xff_walk;
pub use trusted::HopView;
pub use trusted::Trusted;
pub use trusted::TrustedView;

verus! {

} // verus!
