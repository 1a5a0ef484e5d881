//! The chain-walking resolver and its result.
//!
//! Starting from the observed peer address, the resolver trusts forwarding
//! headers only while the peer — and then each self-reported hop — lies in
//! the configured trusted set, and stops at the first hop that does not: that
//! hop's claimed address is the real client. The whole resolution is
//! specified by [`spec_resolve`], a pure function of the peer address, the
//! request's data and the configuration.

use vstd::prelude::*;

use crate::config::spec_ip_trusted;
use crate::config::Config;
use crate::config::ConfigView;
use crate::extract::spec_default_host;
use crate::extract::ReqView;
use crate::extract::RequestInformation;
use crate::net::parse_ip;
use crate::net::parsed_ip;
use crate::net::IpAddress;
use crate::text::find_char;
use crate::text::lemma_find_eq_agreement;
use crate::text::lemma_find_props;
use crate::text::lemma_lower_pointwise;
use crate::text::lemma_trim_lower_agreement;
use crate::text::lower_char;
use crate::text::lemma_rfind_props;
use crate::text::parse_u16_str;
use crate::text::rfind_char;
use crate::text::spec_bare_address;
use crate::text::spec_find;
use crate::text::spec_lower;
use crate::text::spec_parse_u16;
use crate::text::spec_rfind;
use crate::text::spec_split;
use crate::text::spec_split_all;
use crate::text::spec_trim;
use crate::text::spec_unquote;
use crate::text::split_all;
use crate::text::split_str;
use crate::text::trim_str;
use crate::text::unquote;
use crate::text::bare_address;
use crate::text::eq_lowered;

verus! {

/// What one `Forwarded` record claims while it is being examined: the
/// candidate host, scheme, proxy identifier and client address.
pub struct HopView {
    pub host: Option<Seq<char>>,
    pub scheme: Option<Seq<char>>,
    pub by: Option<Seq<char>>,
    pub for_ip: Option<IpAddress>,
}

/// The state before any record has claimed anything.
pub open spec fn empty_hop() -> HopView {
    HopView { host: None, scheme: None, by: None, for_ip: None }
}

/// The key of a `key=value` parameter: what stands before the first equals
/// sign, trimmed and ASCII-lower-cased (keys match case-insensitively).
pub open spec fn spec_param_key(p: Seq<char>) -> Seq<char> {
    spec_lower(spec_trim(p.take(spec_find(p, '='))))
}

/// The value of a `key=value` parameter: what stands after the first equals
/// sign, trimmed and unquoted; empty when there is no equals sign.
pub open spec fn spec_param_value(p: Seq<char>) -> Seq<char> {
    if spec_find(p, '=') < p.len() {
        spec_unquote(p.skip(spec_find(p, '=') + 1))
    } else {
        Seq::<char>::empty()
    }
}

/// One record's parameters, examined left to right from state `st`.
///
/// A `for=` value that parses to a trusted address makes the whole record
/// describe another trusted proxy: the walk discards it (`None`) — host,
/// scheme and `by` claims of the same record included — and moves to the
/// previous record. A `for=` value that parses to an untrusted address is the
/// client; an unparseable one is ignored for trust purposes while the
/// record's other parameters are still read.
pub open spec fn spec_record_walk(
    params: Seq<Seq<char>>,
    i: int,
    st: HopView,
    cfg: ConfigView,
) -> Option<HopView>
    decreases params.len() - i,
{
    if i < 0 || i >= params.len() {
        Some(st)
    } else {
        let k = spec_param_key(params[i]);
        let v = spec_param_value(params[i]);
        if k == "for"@ {
            match parsed_ip(spec_bare_address(v)) {
                Some(a) => {
                    if spec_ip_trusted(cfg, a) {
                        None
                    } else {
                        spec_record_walk(params, i + 1, HopView { for_ip: Some(a), ..st }, cfg)
                    }
                },
                None => spec_record_walk(params, i + 1, st, cfg),
            }
        } else if k == "proto"@ {
            spec_record_walk(params, i + 1, HopView { scheme: Some(v), ..st }, cfg)
        } else if k == "host"@ {
            spec_record_walk(params, i + 1, HopView { host: Some(v), ..st }, cfg)
        } else if k == "by"@ {
            spec_record_walk(params, i + 1, HopView { by: Some(v), ..st }, cfg)
        } else {
            spec_record_walk(params, i + 1, st, cfg)
        }
    }
}

/// One `Forwarded` record: its semicolon-separated parameters examined from a
/// clean state. `None` means the record describes a trusted proxy and the
/// walk moves on.
pub open spec fn spec_process_record(rec: Seq<char>, cfg: ConfigView) -> Option<HopView> {
    spec_record_walk(spec_split(rec, ';'), 0, empty_hop(), cfg)
}

/// The records at indices below `i`, walked from the last one backward, up to
/// the first record that does not describe a trusted proxy. When every record
/// is discarded — or there is none — nothing is claimed.
pub open spec fn spec_forwarded_walk(records: Seq<Seq<char>>, i: int, cfg: ConfigView) -> HopView
    decreases i,
{
    if i <= 0 {
        empty_hop()
    } else {
        match spec_process_record(records[i - 1], cfg) {
            Some(st) => st,
            None => spec_forwarded_walk(records, i - 1, cfg),
        }
    }
}

/// What the `Forwarded` header yields: its instance values flattened into
/// comma-separated records and walked in reverse hop order.
pub open spec fn spec_forwarded_state(vals: Seq<Seq<char>>, cfg: ConfigView) -> HopView {
    let records = spec_split_all(vals, ',');
    spec_forwarded_walk(records, records.len() as int, cfg)
}

/// The `X-Forwarded-For` entries at indices below `i`, walked from the last
/// one backward: a trusted parseable entry is skipped toward the previous
/// one; the first untrusted parseable entry is the client; an unparseable
/// entry stops the walk with nothing.
pub open spec fn spec_xff_walk(entries: Seq<Seq<char>>, i: int, cfg: ConfigView) -> Option<
    IpAddress,
>
    decreases i,
{
    if i <= 0 {
        None
    } else {
        match parsed_ip(spec_bare_address(spec_trim(entries[i - 1]))) {
            Some(a) => {
                if spec_ip_trusted(cfg, a) {
                    spec_xff_walk(entries, i - 1, cfg)
                } else {
                    Some(a)
                }
            },
            None => None,
        }
    }
}

/// What the `X-Forwarded-For` header yields: its instance values flattened
/// into comma-separated entries and walked in reverse.
pub open spec fn spec_xff_state(vals: Seq<Seq<char>>, cfg: ConfigView) -> Option<IpAddress> {
    let entries = spec_split_all(vals, ',');
    spec_xff_walk(entries, entries.len() as int, cfg)
}

/// The last comma-separated value across a header's instances, trimmed: the
/// nearest proxy's claim, with no chain walk. Nothing when the header is
/// absent.
pub open spec fn spec_last_value(vals: Seq<Seq<char>>) -> Option<Seq<char>> {
    let pieces = spec_split_all(vals, ',');
    if pieces.len() == 0 {
        None
    } else {
        Some(spec_trim(pieces.last()))
    }
}

/// The resolved trust data of a request: scheme, host (possibly with an
/// embedded port), the identifier of the proxy that produced the innermost
/// trusted hop, and the resolved client address.
pub struct TrustedView {
    pub host: Option<Seq<char>>,
    pub scheme: Option<Seq<char>>,
    pub by: Option<Seq<char>>,
    pub ip: IpAddress,
}

/// The whole resolution, as a pure function of the observed peer address, the
/// request's data and the configuration.
///
/// A peer outside the trusted set could itself have forged every forwarding
/// header, so none of them is read: the result falls back entirely to
/// request-intrinsic data. For a trusted peer, the `Forwarded` header is
/// walked first (when trusted), then `X-Forwarded-For` for the client address
/// and the three last-value headers for what is still unclaimed; whatever
/// remains unset falls back to the request-intrinsic host and scheme and the
/// peer address.
pub open spec fn spec_resolve(peer: IpAddress, req: ReqView, cfg: ConfigView) -> TrustedView {
    if !spec_ip_trusted(cfg, peer) {
        TrustedView { host: spec_default_host(req), scheme: req.scheme, by: None, ip: peer }
    } else {
        let hop = if cfg.is_forwarded_trusted {
            spec_forwarded_state(req.forwarded, cfg)
        } else {
            empty_hop()
        };
        let client = if hop.for_ip is None && cfg.is_x_forwarded_for_trusted {
            spec_xff_state(req.x_forwarded_for, cfg)
        } else {
            hop.for_ip
        };
        let host = if hop.host is None && cfg.is_x_forwarded_host_trusted {
            spec_last_value(req.x_forwarded_host)
        } else {
            hop.host
        };
        let scheme = if hop.scheme is None && cfg.is_x_forwarded_proto_trusted {
            spec_last_value(req.x_forwarded_proto)
        } else {
            hop.scheme
        };
        let by = if hop.by is None && cfg.is_x_forwarded_by_trusted {
            spec_last_value(req.x_forwarded_by)
        } else {
            hop.by
        };
        TrustedView {
            host: if host is Some {
                host
            } else {
                spec_default_host(req)
            },
            scheme: if scheme is Some {
                scheme
            } else {
                req.scheme
            },
            by: by,
            ip: match client {
                Some(a) => a,
                None => peer,
            },
        }
    }
}

/// The walk state of one `Forwarded` record.
struct Hop {
    host: Option<String>,
    scheme: Option<String>,
    by: Option<String>,
    for_ip: Option<IpAddress>,
}

impl View for Hop {
    type V = HopView;

    closed spec fn view(&self) -> HopView {
        HopView {
            host: self.host.deep_view(),
            scheme: self.scheme.deep_view(),
            by: self.by.deep_view(),
            for_ip: self.for_ip,
        }
    }
}

impl DeepView for Hop {
    type V = HopView;

    closed spec fn deep_view(&self) -> HopView {
        self@
    }
}

/// Examines one `Forwarded` record from a clean state; `None` means the
/// record describes a trusted proxy.
fn process_record(rec: &str, config: &Config) -> (r: Option<Hop>)
    ensures
        r.deep_view() == spec_process_record(rec@, config@),
{
    let params = split_str(rec, ';');
    let ghost pdv = params.deep_view();
    let mut st = Hop { host: None, scheme: None, by: None, for_ip: None };
    let mut i: usize = 0;
    proof {
        assert(st@ == empty_hop());
    }
    while i < params.len()
        invariant
            0 <= i <= params.len(),
            pdv == params.deep_view(),
            pdv == spec_split(rec@, ';'),
            spec_record_walk(pdv, 0, empty_hop(), config@) == spec_record_walk(
                pdv,
                i as int,
                st@,
                config@,
            ),
        decreases params.len() - i,
    {
        let ghost st0 = st@;
        let p = params[i].as_str();
        proof {
            assert(p@ == pdv[i as int]);
            lemma_find_props(p@, '=');
        }
        let n: usize = p.unicode_len();
        let eq = find_char(p, '=');
        let kpart = p.substring_char(0, eq);
        let key = trim_str(kpart);
        let value: &str = if eq < n {
            unquote(p.substring_char(eq + 1, n))
        } else {
            proof {
                reveal_strlit("");
            }
            unquote("")
        };
        proof {
            assert(kpart@ =~= p@.take(spec_find(p@, '=')));
            if spec_find(p@, '=') < p@.len() {
                assert(p@.subrange(spec_find(p@, '=') + 1, p@.len() as int) =~= p@.skip(
                    spec_find(p@, '=') + 1,
                ));
            } else {
                assert(""@ =~= Seq::<char>::empty());
            }
            assert(value@ == spec_param_value(pdv[i as int]));
            reveal_strlit("for");
            reveal_strlit("proto");
            reveal_strlit("host");
            reveal_strlit("by");
        }
        if eq_lowered(key, "for") {
            match parse_ip(bare_address(value)) {
                Some(a) => {
                    if config.is_ip_trusted(&a) {
                        proof {
                            assert(spec_record_walk(pdv, i as int, st0, config@) is None);
                        }
                        return None;
                    }
                    st.for_ip = Some(a);
                },
                None => {},
            }
        } else if eq_lowered(key, "proto") {
            st.scheme = Some(value.to_owned());
        } else if eq_lowered(key, "host") {
            st.host = Some(value.to_owned());
        } else if eq_lowered(key, "by") {
            st.by = Some(value.to_owned());
        }
        proof {
            assert(spec_record_walk(pdv, i as int, st0, config@) == spec_record_walk(
                pdv,
                i + 1,
                st@,
                config@,
            ));
        }
        i = i + 1;
    }
    Some(st)
}

/// Walks the `Forwarded` records in reverse hop order.
fn walk_forwarded(vals: &Vec<String>, config: &Config) -> (r: Hop)
    ensures
        r@ == spec_forwarded_state(vals.deep_view(), config@),
{
    let records = split_all(vals, ',');
    let ghost rdv = records.deep_view();
    let mut i: usize = records.len();
    while i > 0
        invariant
            0 <= i <= records.len(),
            rdv == records.deep_view(),
            rdv == spec_split_all(vals.deep_view(), ','),
            spec_forwarded_walk(rdv, rdv.len() as int, config@) == spec_forwarded_walk(
                rdv,
                i as int,
                config@,
            ),
        decreases i,
    {
        match process_record(records[i - 1].as_str(), config) {
            Some(h) => {
                return h;
            },
            None => {
                i = i - 1;
            },
        }
    }
    Hop { host: None, scheme: None, by: None, for_ip: None }
}

/// Walks the `X-Forwarded-For` entries in reverse.
fn walk_x_forwarded_for(vals: &Vec<String>, config: &Config) -> (r: Option<IpAddress>)
    ensures
        r == spec_xff_state(vals.deep_view(), config@),
{
    let entries = split_all(vals, ',');
    let ghost edv = entries.deep_view();
    let mut i: usize = entries.len();
    while i > 0
        invariant
            0 <= i <= entries.len(),
            edv == entries.deep_view(),
            edv == spec_split_all(vals.deep_view(), ','),
            spec_xff_walk(edv, edv.len() as int, config@) == spec_xff_walk(edv, i as int, config@),
        decreases i,
    {
        let e = trim_str(entries[i - 1].as_str());
        match parse_ip(bare_address(e)) {
            Some(a) => {
                if config.is_ip_trusted(&a) {
                    i = i - 1;
                } else {
                    return Some(a);
                }
            },
            None => {
                return None;
            },
        }
    }
    None
}

/// The last comma-separated value across a header's instances, trimmed.
fn last_value(vals: &Vec<String>) -> (r: Option<String>)
    ensures
        r.deep_view() == spec_last_value(vals.deep_view()),
{
    let pieces = split_all(vals, ',');
    if pieces.len() == 0 {
        None
    } else {
        let t = trim_str(pieces[pieces.len() - 1].as_str());
        proof {
            assert(pieces.deep_view()[pieces.len() - 1] == pieces.deep_view().last());
        }
        Some(t.to_owned())
    }
}

/// Trusted data extracted from a request.
///
/// Values returned by this struct can be used to determine the real client
/// information, given the configuration: the resolved scheme, host (possibly
/// carrying a `:port`), forwarding-proxy identifier and client address.
#[derive(Debug, Clone)]
pub struct Trusted {
    host: Option<String>,
    scheme: Option<String>,
    by: Option<String>,
    ip: IpAddress,
}

impl View for Trusted {
    type V = TrustedView;

    closed spec fn view(&self) -> TrustedView {
        TrustedView {
            host: self.host.deep_view(),
            scheme: self.scheme.deep_view(),
            by: self.by.deep_view(),
            ip: self.ip,
        }
    }
}

/// The host part of a host field: when the field ends in a colon followed by
/// a decimal 16-bit number, what stands before that last colon; a field
/// without such a trailing port is returned whole.
pub open spec fn spec_host_of(host: Option<Seq<char>>) -> Option<Seq<char>> {
    match host {
        Some(h) => {
            let r = spec_rfind(h, ':');
            if r >= 0 && spec_parse_u16(h.skip(r + 1)) is Some {
                Some(h.take(r))
            } else {
                Some(h)
            }
        },
        None => None,
    }
}

/// The port of a host field: what follows the last colon, read as a decimal
/// 16-bit number; nothing when there is no colon or the trailing segment
/// does not parse.
pub open spec fn spec_port_of(host: Option<Seq<char>>) -> Option<u16> {
    match host {
        Some(h) => {
            let r = spec_rfind(h, ':');
            if r >= 0 {
                spec_parse_u16(h.skip(r + 1))
            } else {
                None::<u16>
            }
        },
        None => None::<u16>,
    }
}

impl Trusted {
    /// This resolution, owned in full. The result borrows nothing, so this is
    /// the identity; it mirrors the borrowed-to-owned conversion a
    /// borrowing representation would need.
    pub fn into_owned(self) -> (r: Trusted)
        ensures
            r == self,
    {
        self
    }

    /// Get the scheme of the request.
    pub fn scheme(&self) -> (r: Option<&str>)
        ensures
            r.deep_view() == self@.scheme,
    {
        match &self.scheme {
            Some(s) => Some(s.as_str()),
            None => None,
        }
    }

    /// Get the host and potential port of the request.
    pub fn host_with_port(&self) -> (r: Option<&str>)
        ensures
            r.deep_view() == self@.host,
    {
        match &self.host {
            Some(h) => Some(h.as_str()),
            None => None,
        }
    }

    /// Get the host of the request, with a trailing `:port` segment
    /// stripped.
    pub fn host(&self) -> (r: Option<&str>)
        ensures
            r.deep_view() == spec_host_of(self@.host),
    {
        match &self.host {
            Some(h) => {
                let hs = h.as_str();
                let n: usize = hs.unicode_len();
                proof {
                    lemma_rfind_props(h@, ':');
                }
                match rfind_char(hs, ':') {
                    Some(idx) => {
                        let seg = hs.substring_char(idx + 1, n);
                        proof {
                            assert(seg@ =~= h@.skip(spec_rfind(h@, ':') + 1));
                        }
                        if parse_u16_str(seg).is_some() {
                            let part = hs.substring_char(0, idx);
                            proof {
                                assert(part@ =~= h@.take(spec_rfind(h@, ':')));
                            }
                            Some(part)
                        } else {
                            Some(hs)
                        }
                    },
                    None => Some(hs),
                }
            },
            None => None,
        }
    }

    /// Get the port of the request: what follows the last colon of the host
    /// field, if it forms a decimal 16-bit number.
    pub fn port(&self) -> (r: Option<u16>)
        ensures
            r == spec_port_of(self@.host),
    {
        match &self.host {
            Some(h) => {
                let hs = h.as_str();
                let n: usize = hs.unicode_len();
                proof {
                    lemma_rfind_props(h@, ':');
                }
                match rfind_char(hs, ':') {
                    Some(idx) => {
                        let seg = hs.substring_char(idx + 1, n);
                        proof {
                            assert(seg@ =~= h@.skip(spec_rfind(h@, ':') + 1));
                        }
                        parse_u16_str(seg)
                    },
                    None => None,
                }
            },
            None => None,
        }
    }

    /// Get the proxy that forwarded the request.
    pub fn by(&self) -> (r: Option<&str>)
        ensures
            r.deep_view() == self@.by,
    {
        match &self.by {
            Some(b) => Some(b.as_str()),
            None => None,
        }
    }

    /// Get the first untrusted IP address from the request, in most cases the
    /// real client address.
    pub fn ip(&self) -> (r: IpAddress)
        ensures
            r == self@.ip,
    {
        self.ip
    }

    /// Create a new `Trusted` value from a peer address, a request and a
    /// configuration. The result is exactly [`spec_resolve`] of the three.
    pub fn from<T: RequestInformation>(ip_addr: IpAddress, request: &T, config: &Config) -> (r:
        Trusted)
        ensures
            r@ == spec_resolve(ip_addr, request.req_view(), config@),
    {
        if !config.is_ip_trusted(&ip_addr) {
            // An untrusted peer could have forged every forwarding header:
            // fall back to request-intrinsic data.
            let host: Option<String> = match request.default_host() {
                Some(h) => Some(h.to_owned()),
                None => None,
            };
            let scheme: Option<String> = match request.default_scheme() {
                Some(s) => Some(s.to_owned()),
                None => None,
            };
            Trusted { host, scheme, by: None, ip: ip_addr }
        } else {
            let hop: Hop = if config.forwarded_trusted() {
                walk_forwarded(&request.forwarded(), config)
            } else {
                Hop { host: None, scheme: None, by: None, for_ip: None }
            };
            let client: Option<IpAddress> = if hop.for_ip.is_none()
                && config.x_forwarded_for_trusted() {
                walk_x_forwarded_for(&request.x_forwarded_for(), config)
            } else {
                hop.for_ip
            };
            let host: Option<String> = if hop.host.is_none() && config.x_forwarded_host_trusted() {
                last_value(&request.x_forwarded_host())
            } else {
                hop.host
            };
            let scheme: Option<String> = if hop.scheme.is_none()
                && config.x_forwarded_proto_trusted() {
                last_value(&request.x_forwarded_proto())
            } else {
                hop.scheme
            };
            let by: Option<String> = if hop.by.is_none() && config.x_forwarded_by_trusted() {
                last_value(&request.x_forwarded_by())
            } else {
                hop.by
            };
            let host2: Option<String> = match host {
                Some(h) => Some(h),
                None => match request.default_host() {
                    Some(h) => Some(h.to_owned()),
                    None => None,
                },
            };
            let scheme2: Option<String> = match scheme {
                Some(s) => Some(s),
                None => match request.default_scheme() {
                    Some(s) => Some(s.to_owned()),
                    None => None,
                },
            };
            let client2: IpAddress = match client {
                Some(a) => a,
                None => ip_addr,
            };
            Trusted { host: host2, scheme: scheme2, by, ip: client2 }
        }
    }
}

/// Spoof resistance: for a peer address outside the trusted set, the
/// resolution falls back entirely to request-intrinsic data, whatever the
/// forwarding headers hold — in particular the resolved client address is
/// the peer address itself.
pub proof fn lemma_untrusted_peer_resolution(peer: IpAddress, req: ReqView, cfg: ConfigView)
    requires
        !spec_ip_trusted(cfg, peer),
    ensures
        spec_resolve(peer, req, cfg) == (TrustedView {
            host: spec_default_host(req),
            scheme: req.scheme,
            by: None,
            ip: peer,
        }),
{
}

/// With all five header-trust flags disabled, the resolution equals the
/// untrusted-peer fallback, whether or not the peer is trusted.
pub proof fn lemma_all_flags_off_resolution(peer: IpAddress, req: ReqView, cfg: ConfigView)
    requires
        !cfg.is_forwarded_trusted,
        !cfg.is_x_forwarded_for_trusted,
        !cfg.is_x_forwarded_host_trusted,
        !cfg.is_x_forwarded_proto_trusted,
        !cfg.is_x_forwarded_by_trusted,
    ensures
        spec_resolve(peer, req, cfg) == (TrustedView {
            host: spec_default_host(req),
            scheme: req.scheme,
            by: None,
            ip: peer,
        }),
{
}

/// Resolution is a pure function of the peer address, the request data and
/// the configuration: two resolutions of the same immutable triple are
/// identical.
pub proof fn lemma_resolution_deterministic(
    a: TrustedView,
    b: TrustedView,
    peer: IpAddress,
    req: ReqView,
    cfg: ConfigView,
)
    requires
        a == spec_resolve(peer, req, cfg),
        b == spec_resolve(peer, req, cfg),
    ensures
        a == b,
{
}

/// `Forwarded` parameter keys match case-insensitively: a record walk reads
/// a parameter only through its lower-cased key and its value, so two
/// parameter lists agreeing on those — for instance with keys `for`, `For`
/// and `FOR` — walk to the same outcome.
pub proof fn lemma_record_walk_case_insensitive(
    params1: Seq<Seq<char>>,
    params2: Seq<Seq<char>>,
    i: int,
    st: HopView,
    cfg: ConfigView,
)
    requires
        params1.len() == params2.len(),
        forall|j: int|
            0 <= j < params1.len() ==> spec_param_key(#[trigger] params1[j]) == spec_param_key(
                #[trigger] params2[j],
            ),
        forall|j: int|
            0 <= j < params1.len() ==> spec_param_value(#[trigger] params1[j])
                == spec_param_value(#[trigger] params2[j]),
    ensures
        spec_record_walk(params1, i, st, cfg) == spec_record_walk(params2, i, st, cfg),
    decreases params1.len() - i,
{
    if i < 0 || i >= params1.len() {
    } else {
        let k = spec_param_key(params1[i]);
        let v = spec_param_value(params1[i]);
        if k == "for"@ {
            match parsed_ip(spec_bare_address(v)) {
                Some(a) => {
                    if !spec_ip_trusted(cfg, a) {
                        lemma_record_walk_case_insensitive(
                            params1,
                            params2,
                            i + 1,
                            HopView { for_ip: Some(a), ..st },
                            cfg,
                        );
                    }
                },
                None => {
                    lemma_record_walk_case_insensitive(params1, params2, i + 1, st, cfg);
                },
            }
        } else if k == "proto"@ {
            lemma_record_walk_case_insensitive(
                params1,
                params2,
                i + 1,
                HopView { scheme: Some(v), ..st },
                cfg,
            );
        } else if k == "host"@ {
            lemma_record_walk_case_insensitive(
                params1,
                params2,
                i + 1,
                HopView { host: Some(v), ..st },
                cfg,
            );
        } else if k == "by"@ {
            lemma_record_walk_case_insensitive(
                params1,
                params2,
                i + 1,
                HopView { by: Some(v), ..st },
                cfg,
            );
        } else {
            lemma_record_walk_case_insensitive(params1, params2, i + 1, st, cfg);
        }
    }
}

/// `Forwarded` parameter keys are read case-insensitively: two parameter
/// texts that agree up to ASCII case — such as `For=x` and `for=x` — carry
/// the same key.
pub proof fn lemma_param_key_case_insensitive(p: Seq<char>, q: Seq<char>)
    requires
        spec_lower(p) == spec_lower(q),
    ensures
        spec_param_key(p) == spec_param_key(q),
{
    lemma_find_eq_agreement(p, q);
    lemma_lower_pointwise(p, q);
    let f = spec_find(p, '=');
    assert(spec_lower(p.take(f)) =~= spec_lower(q.take(f))) by {
        lemma_find_props(p, '=');
        assert forall|j: int| 0 <= j < spec_lower(p.take(f)).len() implies spec_lower(p.take(f))[j]
            == spec_lower(q.take(f))[j] by {
            assert(spec_lower(p.take(f))[j] == lower_char(p[j]));
            assert(spec_lower(q.take(f))[j] == lower_char(q[j]));
        }
    }
    lemma_trim_lower_agreement(p.take(f), q.take(f));
}

} // verus!
