//! The trust configuration: a set of trusted network prefixes and one trust
//! flag per forwarding header.
//!
//! A configuration is built once at startup — empty, or pre-seeded with the
//! loopback and private ranges — then only widened through the explicit
//! `trust` calls, and treated as read-only while requests are resolved.

use vstd::prelude::*;

use crate::net::parse_ip;
use crate::net::parse_net;
use crate::net::parsed_ip;
use crate::net::parsed_net;
use crate::net::spec_host_net;
use crate::net::spec_net_contains;
use crate::net::IpAddress;
use crate::net::IpNetwork;

verus! {

/// The state of a [`Config`]: the trusted prefixes in insertion order and the
/// five header trust flags.
pub struct ConfigView {
    pub trusted_ips: Seq<IpNetwork>,
    pub is_forwarded_trusted: bool,
    pub is_x_forwarded_for_trusted: bool,
    pub is_x_forwarded_host_trusted: bool,
    pub is_x_forwarded_proto_trusted: bool,
    pub is_x_forwarded_by_trusted: bool,
}

/// Whether `addr` falls inside any of the configuration's trusted prefixes.
/// Membership is a pure predicate over the set, so insertion order never
/// affects it.
pub open spec fn spec_ip_trusted(cfg: ConfigView, addr: IpAddress) -> bool {
    exists|j: int|
        0 <= j < cfg.trusted_ips.len() && spec_net_contains(
            #[trigger] cfg.trusted_ips[j],
            addr,
        )
}

/// The network a trusted-proxy specification denotes: a CIDR form as the
/// network it names, else a bare address as its host-length prefix.
pub open spec fn spec_added_network(s: Seq<char>) -> Option<IpNetwork> {
    match parsed_net(s) {
        Some(n) => Some(n),
        None => match parsed_ip(s) {
            Some(a) => Some(spec_host_net(a)),
            None => None,
        },
    }
}

/// The error of [`Config::add_trusted_ip`]: the specification text parsed
/// neither as a network nor as an address.
#[derive(Debug, Clone)]
pub struct ParseError {
    /// The offending specification text.
    pub text: String,
}

/// Config for the trusted-proxies resolver.
///
/// [`Config::new_local`] trusts the IPv4 loopback and private networks and
/// the IPv6 loopback and unique-local network, along with the `Forwarded` and
/// `X-Forwarded-For` headers; it is the recommended default.
#[derive(Debug, Clone)]
pub struct Config {
    trusted_ips: Vec<IpNetwork>,
    pub(crate) is_forwarded_trusted: bool,
    pub(crate) is_x_forwarded_for_trusted: bool,
    pub(crate) is_x_forwarded_host_trusted: bool,
    pub(crate) is_x_forwarded_proto_trusted: bool,
    pub(crate) is_x_forwarded_by_trusted: bool,
}

impl View for Config {
    type V = ConfigView;

    closed spec fn view(&self) -> ConfigView {
        ConfigView {
            trusted_ips: self.trusted_ips@,
            is_forwarded_trusted: self.is_forwarded_trusted,
            is_x_forwarded_for_trusted: self.is_x_forwarded_for_trusted,
            is_x_forwarded_host_trusted: self.is_x_forwarded_host_trusted,
            is_x_forwarded_proto_trusted: self.is_x_forwarded_proto_trusted,
            is_x_forwarded_by_trusted: self.is_x_forwarded_by_trusted,
        }
    }
}

/// The prefixes trusted by the local default: IPv4 loopback, the three IPv4
/// private ranges, IPv6 loopback and the IPv6 unique-local range.
pub open spec fn local_trusted_networks() -> Seq<IpNetwork> {
    seq![
        IpNetwork { addr: IpAddress::V4(0x7f00_0000), prefix_len: 8 },
        IpNetwork { addr: IpAddress::V4(0x0a00_0000), prefix_len: 8 },
        IpNetwork { addr: IpAddress::V4(0xac10_0000), prefix_len: 12 },
        IpNetwork { addr: IpAddress::V4(0xc0a8_0000), prefix_len: 16 },
        IpNetwork { addr: IpAddress::V6(1), prefix_len: 128 },
        IpNetwork { addr: IpAddress::V6(0xfd00_0000_0000_0000_0000_0000_0000_0000), prefix_len: 8 },
    ]
}

impl Config {
    /// A config with no trusted proxies and no trusted headers.
    pub fn new() -> (r: Self)
        ensures
            r@ == (ConfigView {
                trusted_ips: Seq::<IpNetwork>::empty(),
                is_forwarded_trusted: false,
                is_x_forwarded_for_trusted: false,
                is_x_forwarded_host_trusted: false,
                is_x_forwarded_proto_trusted: false,
                is_x_forwarded_by_trusted: false,
            }),
    {
        let r = Config {
            trusted_ips: Vec::new(),
            is_forwarded_trusted: false,
            is_x_forwarded_for_trusted: false,
            is_x_forwarded_host_trusted: false,
            is_x_forwarded_proto_trusted: false,
            is_x_forwarded_by_trusted: false,
        };
        proof {
            assert(r@.trusted_ips =~= Seq::<IpNetwork>::empty());
        }
        r
    }

    /// A config trusting the local and private networks and the `Forwarded`
    /// and `X-Forwarded-For` headers.
    pub fn new_local() -> (r: Self)
        ensures
            r@ == (ConfigView {
                trusted_ips: local_trusted_networks(),
                is_forwarded_trusted: true,
                is_x_forwarded_for_trusted: true,
                is_x_forwarded_host_trusted: false,
                is_x_forwarded_proto_trusted: false,
                is_x_forwarded_by_trusted: false,
            }),
    {
        let mut nets: Vec<IpNetwork> = Vec::new();
        // IPv4 loopback
        nets.push(IpNetwork { addr: IpAddress::V4(0x7f00_0000), prefix_len: 8 });
        // IPv4 private networks
        nets.push(IpNetwork { addr: IpAddress::V4(0x0a00_0000), prefix_len: 8 });
        nets.push(IpNetwork { addr: IpAddress::V4(0xac10_0000), prefix_len: 12 });
        nets.push(IpNetwork { addr: IpAddress::V4(0xc0a8_0000), prefix_len: 16 });
        // IPv6 loopback
        nets.push(IpNetwork { addr: IpAddress::V6(1), prefix_len: 128 });
        // IPv6 unique-local network
        nets.push(
            IpNetwork {
                addr: IpAddress::V6(0xfd00_0000_0000_0000_0000_0000_0000_0000),
                prefix_len: 8,
            },
        );
        let r = Config {
            trusted_ips: nets,
            is_forwarded_trusted: true,
            is_x_forwarded_for_trusted: true,
            is_x_forwarded_host_trusted: false,
            is_x_forwarded_proto_trusted: false,
            is_x_forwarded_by_trusted: false,
        };
        proof {
            assert(r@.trusted_ips =~= local_trusted_networks());
        }
        r
    }

    /// Add a trusted proxy: a bare IP address (promoted to a host-length
    /// prefix) or a CIDR form. A text that parses as neither is refused with
    /// a [`ParseError`] carrying it, and the config is unchanged.
    pub fn add_trusted_ip(&mut self, proxy: &str) -> (r: Result<(), ParseError>)
        ensures
            final(self)@.is_forwarded_trusted == old(self)@.is_forwarded_trusted,
            final(self)@.is_x_forwarded_for_trusted == old(self)@.is_x_forwarded_for_trusted,
            final(self)@.is_x_forwarded_host_trusted == old(self)@.is_x_forwarded_host_trusted,
            final(self)@.is_x_forwarded_proto_trusted == old(self)@.is_x_forwarded_proto_trusted,
            final(self)@.is_x_forwarded_by_trusted == old(self)@.is_x_forwarded_by_trusted,
            r is Ok <==> spec_added_network(proxy@) is Some,
            r is Ok ==> final(self)@.trusted_ips == old(self)@.trusted_ips.push(
                spec_added_network(proxy@).unwrap(),
            ),
            r is Err ==> final(self)@.trusted_ips == old(self)@.trusted_ips && r.get_Err_0().text@
                == proxy@,
    {
        match parse_net(proxy) {
            Some(net) => {
                self.trusted_ips.push(net);
                Ok(())
            },
            None => match parse_ip(proxy) {
                Some(addr) => {
                    self.trusted_ips.push(IpNetwork::host(addr));
                    Ok(())
                },
                None => Err(ParseError { text: proxy.to_owned() }),
            },
        }
    }

    /// Check if a remote address is trusted given the trusted prefixes.
    pub fn is_ip_trusted(&self, remote_addr: &IpAddress) -> (r: bool)
        ensures
            r == spec_ip_trusted(self@, *remote_addr),
    {
        let mut i: usize = 0;
        while i < self.trusted_ips.len()
            invariant
                0 <= i <= self.trusted_ips.len(),
                forall|j: int|
                    0 <= j < i ==> !spec_net_contains(
                        #[trigger] self.trusted_ips@[j],
                        *remote_addr,
                    ),
            decreases self.trusted_ips.len() - i,
        {
            if self.trusted_ips[i].contains(remote_addr) {
                proof {
                    assert(spec_net_contains(self@.trusted_ips[i as int], *remote_addr));
                }
                return true;
            }
            i = i + 1;
        }
        false
    }

    /// Whether the `Forwarded` header is trusted.
    pub(crate) fn forwarded_trusted(&self) -> (r: bool)
        ensures
            r == self@.is_forwarded_trusted,
    {
        self.is_forwarded_trusted
    }

    /// Whether the `X-Forwarded-For` header is trusted.
    pub(crate) fn x_forwarded_for_trusted(&self) -> (r: bool)
        ensures
            r == self@.is_x_forwarded_for_trusted,
    {
        self.is_x_forwarded_for_trusted
    }

    /// Whether the `X-Forwarded-Host` header is trusted.
    pub(crate) fn x_forwarded_host_trusted(&self) -> (r: bool)
        ensures
            r == self@.is_x_forwarded_host_trusted,
    {
        self.is_x_forwarded_host_trusted
    }

    /// Whether the `X-Forwarded-Proto` header is trusted.
    pub(crate) fn x_forwarded_proto_trusted(&self) -> (r: bool)
        ensures
            r == self@.is_x_forwarded_proto_trusted,
    {
        self.is_x_forwarded_proto_trusted
    }

    /// Whether the `X-Forwarded-By` header is trusted.
    pub(crate) fn x_forwarded_by_trusted(&self) -> (r: bool)
        ensures
            r == self@.is_x_forwarded_by_trusted,
    {
        self.is_x_forwarded_by_trusted
    }

    /// Trust the `Forwarded` header.
    pub fn trust_forwarded(&mut self)
        ensures
            final(self)@ == (ConfigView { is_forwarded_trusted: true, ..old(self)@ }),
    {
        self.is_forwarded_trusted = true;
    }

    /// Trust the `X-Forwarded-For` header.
    pub fn trust_x_forwarded_for(&mut self)
        ensures
            final(self)@ == (ConfigView { is_x_forwarded_for_trusted: true, ..old(self)@ }),
    {
        self.is_x_forwarded_for_trusted = true;
    }

    /// Trust the `X-Forwarded-Host` header to fetch the host and optionally
    /// the port.
    ///
    /// When the header holds multiple values, the last one is used, even with
    /// multiple proxies in the chain; the `Forwarded` header is the way to
    /// walk a longer chain securely.
    pub fn trust_x_forwarded_host(&mut self)
        ensures
            final(self)@ == (ConfigView { is_x_forwarded_host_trusted: true, ..old(self)@ }),
    {
        self.is_x_forwarded_host_trusted = true;
    }

    /// Trust the `X-Forwarded-Proto` header to fetch the scheme.
    ///
    /// When the header holds multiple values, the last one is used, even with
    /// multiple proxies in the chain; the `Forwarded` header is the way to
    /// walk a longer chain securely.
    pub fn trust_x_forwarded_proto(&mut self)
        ensures
            final(self)@ == (ConfigView { is_x_forwarded_proto_trusted: true, ..old(self)@ }),
    {
        self.is_x_forwarded_proto_trusted = true;
    }

    /// Trust the `X-Forwarded-By` header to identify the proxy that sent the
    /// request.
    ///
    /// When the header holds multiple values, the last one is used, even with
    /// multiple proxies in the chain; the `Forwarded` header is the way to
    /// walk a longer chain securely.
    pub fn trust_x_forwarded_by(&mut self)
        ensures
            final(self)@ == (ConfigView { is_x_forwarded_by_trusted: true, ..old(self)@ }),
    {
        self.is_x_forwarded_by_trusted = true;
    }
}

impl Default for Config {
    /// The local default, as [`Config::new_local`] builds it.
    fn default() -> (r: Self)
        ensures
            r@ == (ConfigView {
                trusted_ips: local_trusted_networks(),
                is_forwarded_trusted: true,
                is_x_forwarded_for_trusted: true,
                is_x_forwarded_host_trusted: false,
                is_x_forwarded_proto_trusted: false,
                is_x_forwarded_by_trusted: false,
            }),
    {
        Config::new_local()
    }
}

} // verus!
