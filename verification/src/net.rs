//! Network addresses and prefixes, modelled as plain integers.
//!
//! An [`IpAddress`] carries the bits of an IPv4 or IPv6 address; an
//! [`IpNetwork`] pairs an address with a prefix length. Membership of an
//! address in a network is plain bit arithmetic and is verified here; only
//! the parsing of textual address and network forms is delegated to
//! `core::net` and the `ipnet` crate behind trusted wrappers.

use vstd::prelude::*;

verus! {

/// An IP address: the 32 bits of an IPv4 address or the 128 bits of an IPv6
/// address, in network order (the first octet is the most significant).
#[derive(Clone, Copy, Debug, PartialEq, Eq, Structural)]
pub enum IpAddress {
    V4(u32),
    V6(u128),
}

impl IpAddress {
    /// Build an IPv4 address from its four dotted-quad octets.
    pub fn from_v4_octets(a: u8, b: u8, c: u8, d: u8) -> (r: IpAddress)
        ensures
            r == IpAddress::V4(
                ((a as u32) << 24u32) | ((b as u32) << 16u32) | ((c as u32) << 8u32) | (d as u32),
            ),
    {
        IpAddress::V4(
            ((a as u32) << 24u32) | ((b as u32) << 16u32) | ((c as u32) << 8u32) | (d as u32),
        )
    }

    /// Build an IPv6 address from its eight colon-separated 16-bit groups.
    pub fn from_v6_groups(groups: [u16; 8]) -> (r: IpAddress)
        ensures
            r == IpAddress::V6(spec_v6_of_groups(groups@)),
    {
        let mut acc: u128 = 0;
        let mut i: usize = 0;
        while i < 8
            invariant
                0 <= i <= 8,
                acc == spec_v6_of_groups(groups@.subrange(0, i as int)),
            decreases 8 - i,
        {
            proof {
                assert(groups@.subrange(0, i + 1).drop_last() =~= groups@.subrange(0, i as int));
            }
            acc = (acc << 16u32) | (groups[i] as u128);
            i = i + 1;
        }
        proof {
            assert(groups@.subrange(0, 8) =~= groups@);
        }
        IpAddress::V6(acc)
    }

    /// True for the IPv6 form.
    pub fn is_ipv6(&self) -> (r: bool)
        ensures
            r == (self is V6),
    {
        match self {
            IpAddress::V4(_) => false,
            IpAddress::V6(_) => true,
        }
    }
}

/// The 128-bit value whose 16-bit groups, most significant first, are the
/// given ones (zero when fewer than eight are given yet).
pub open spec fn spec_v6_of_groups(groups: Seq<u16>) -> u128
    decreases groups.len(),
{
    if groups.len() == 0 {
        0u128
    } else {
        ((spec_v6_of_groups(groups.drop_last()) << 16u32) | (groups.last() as u128)) as u128
    }
}

/// A network prefix: the bits of its base address together with the number of
/// leading bits that are significant. A single address is a host-length
/// prefix (32 or 128).
#[derive(Clone, Copy, Debug, PartialEq, Eq, Structural)]
pub struct IpNetwork {
    pub addr: IpAddress,
    pub prefix_len: u8,
}

/// Whether `addr` falls inside the network `net`: the two addresses belong to
/// the same family and agree on the first `prefix_len` bits. A prefix length
/// beyond the address width matches nothing.
pub open spec fn spec_net_contains(net: IpNetwork, addr: IpAddress) -> bool {
    match (net.addr, addr) {
        (IpAddress::V4(base), IpAddress::V4(a)) => {
            if net.prefix_len == 0 {
                true
            } else if net.prefix_len <= 32 {
                (base ^ a) >> ((32 - net.prefix_len) as u32) == 0
            } else {
                false
            }
        },
        (IpAddress::V6(base), IpAddress::V6(a)) => {
            if net.prefix_len == 0 {
                true
            } else if net.prefix_len <= 128 {
                (base ^ a) >> ((128 - net.prefix_len) as u32) == 0
            } else {
                false
            }
        },
        _ => false,
    }
}

impl IpNetwork {
    /// The host-length prefix holding exactly `addr`.
    pub fn host(addr: IpAddress) -> (r: IpNetwork)
        ensures
            r == spec_host_net(addr),
    {
        match addr {
            IpAddress::V4(_) => IpNetwork { addr, prefix_len: 32 },
            IpAddress::V6(_) => IpNetwork { addr, prefix_len: 128 },
        }
    }

    /// Whether `addr` falls inside this network.
    pub fn contains(&self, addr: &IpAddress) -> (r: bool)
        ensures
            r == spec_net_contains(*self, *addr),
    {
        match (&self.addr, addr) {
            (IpAddress::V4(base), IpAddress::V4(a)) => {
                if self.prefix_len == 0 {
                    true
                } else if self.prefix_len <= 32 {
                    (*base ^ *a) >> ((32 - self.prefix_len) as u32) == 0
                } else {
                    false
                }
            },
            (IpAddress::V6(base), IpAddress::V6(a)) => {
                if self.prefix_len == 0 {
                    true
                } else if self.prefix_len <= 128 {
                    (*base ^ *a) >> ((128 - self.prefix_len) as u32) == 0
                } else {
                    false
                }
            },
            _ => false,
        }
    }
}

/// The host-length prefix holding exactly `addr`.
pub open spec fn spec_host_net(addr: IpAddress) -> IpNetwork {
    match addr {
        IpAddress::V4(_) => IpNetwork { addr, prefix_len: 32 },
        IpAddress::V6(_) => IpNetwork { addr, prefix_len: 128 },
    }
}

/// The address an address text denotes, if any: what `core::net`'s address
/// parser accepts. A function of the text alone.
pub uninterp spec fn parsed_ip(s: Seq<char>) -> Option<IpAddress>;

/// The network a CIDR text denotes, if any: what the `ipnet` crate's network
/// parser accepts. A function of the text alone.
pub uninterp spec fn parsed_net(s: Seq<char>) -> Option<IpNetwork>;

/// Relies on `core::net::IpAddr`'s `FromStr`: whether the text parses and
/// which address it denotes depend on the characters alone.
#[verifier::external_body]
pub(crate) fn parse_ip(s: &str) -> (r: Option<IpAddress>)
    ensures
        r == parsed_ip(s@),
{
    match s.parse::<core::net::IpAddr>() {
        Ok(core::net::IpAddr::V4(a)) => Some(IpAddress::V4(u32::from(a))),
        Ok(core::net::IpAddr::V6(a)) => Some(IpAddress::V6(u128::from(a))),
        Err(_) => None,
    }
}

/// Relies on `ipnet::IpNet`'s `FromStr`: whether a CIDR text parses and which
/// base address and prefix length it denotes depend on the characters alone.
#[verifier::external_body]
pub(crate) fn parse_net(s: &str) -> (r: Option<IpNetwork>)
    ensures
        r == parsed_net(s@),
{
    match s.parse::<ipnet::IpNet>() {
        Ok(ipnet::IpNet::V4(n)) => Some(IpNetwork {
            addr: IpAddress::V4(u32::from(n.addr())),
            prefix_len: n.prefix_len(),
        }),
        Ok(ipnet::IpNet::V6(n)) => Some(IpNetwork {
            addr: IpAddress::V6(u128::from(n.addr())),
            prefix_len: n.prefix_len(),
        }),
        Err(_) => None,
    }
}

} // verus!
