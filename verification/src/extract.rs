//! The request abstraction the resolver reads: a capability trait exposing
//! the handful of request facts the walk needs, and a plain-data form of a
//! request that any concrete request type can be converted into.

use vstd::prelude::*;

verus! {

/// The request facts the resolver reads, as mathematical values: the
/// protocol-version gate for the `Host` header, the intrinsic host, authority
/// and scheme, and the ordered raw instance values of the five forwarding
/// headers (not pre-split on commas).
pub struct ReqView {
    pub is_host_header_allowed: bool,
    pub host_header: Option<Seq<char>>,
    pub authority: Option<Seq<char>>,
    pub scheme: Option<Seq<char>>,
    pub forwarded: Seq<Seq<char>>,
    pub x_forwarded_for: Seq<Seq<char>>,
    pub x_forwarded_host: Seq<Seq<char>>,
    pub x_forwarded_proto: Seq<Seq<char>>,
    pub x_forwarded_by: Seq<Seq<char>>,
}

/// The host a request names when no trusted header supplies one: the `Host`
/// header where the protocol version allows it, else the URI authority.
pub open spec fn spec_default_host(req: ReqView) -> Option<Seq<char>> {
    if req.is_host_header_allowed && req.host_header is Some {
        req.host_header
    } else {
        req.authority
    }
}

/// A trait to extract the required information from a request in order to
/// fetch trusted information.
///
/// Each executable method is tied to one field of [`ReqView`], so the
/// resolver's contract can speak of the request's data as a whole.
pub trait RequestInformation {
    /// The request's data as the resolver reads it.
    spec fn req_view(&self) -> ReqView;

    /// Check if the host header is allowed.
    ///
    /// Most implementations should return `true` if the HTTP version is less
    /// than HTTP/2.
    fn is_host_header_allowed(&self) -> (r: bool)
        ensures
            r == self.req_view().is_host_header_allowed,
    ;

    /// Get the host header of the request.
    fn host_header(&self) -> (r: Option<&str>)
        ensures
            r.deep_view() == self.req_view().host_header,
    ;

    /// Get the authority of the request.
    fn authority(&self) -> (r: Option<&str>)
        ensures
            r.deep_view() == self.req_view().authority,
    ;

    /// Get the `Forwarded` header values, in order.
    fn forwarded(&self) -> (r: Vec<String>)
        ensures
            r.deep_view() == self.req_view().forwarded,
    ;

    /// Get the `X-Forwarded-For` header values, in order.
    fn x_forwarded_for(&self) -> (r: Vec<String>)
        ensures
            r.deep_view() == self.req_view().x_forwarded_for,
    ;

    /// Get the `X-Forwarded-Host` header values, in order.
    fn x_forwarded_host(&self) -> (r: Vec<String>)
        ensures
            r.deep_view() == self.req_view().x_forwarded_host,
    ;

    /// Get the `X-Forwarded-Proto` header values, in order.
    fn x_forwarded_proto(&self) -> (r: Vec<String>)
        ensures
            r.deep_view() == self.req_view().x_forwarded_proto,
    ;

    /// Get the `X-Forwarded-By` header values, in order.
    fn x_forwarded_by(&self) -> (r: Vec<String>)
        ensures
            r.deep_view() == self.req_view().x_forwarded_by,
    ;

    /// Return the default host of the request when no trusted headers are
    /// found: the host header if allowed, else the authority.
    fn default_host(&self) -> (r: Option<&str>)
        ensures
            r.deep_view() == spec_default_host(self.req_view()),
    {
        if self.is_host_header_allowed() {
            match self.host_header() {
                Some(h) => Some(h),
                None => self.authority(),
            }
        } else {
            self.authority()
        }
    }

    /// Return the default scheme of the request when no trusted headers are
    /// found.
    fn default_scheme(&self) -> (r: Option<&str>)
        ensures
            r.deep_view() == self.req_view().scheme,
    ;
}

/// A request's data as plain owned values: the straightforward
/// [`RequestInformation`] source. An adapter for a concrete request type
/// fills one of these from the request's headers.
#[derive(Debug, Clone)]
pub struct RequestData {
    pub is_host_header_allowed: bool,
    pub host_header: Option<String>,
    pub authority: Option<String>,
    pub scheme: Option<String>,
    pub forwarded: Vec<String>,
    pub x_forwarded_for: Vec<String>,
    pub x_forwarded_host: Vec<String>,
    pub x_forwarded_proto: Vec<String>,
    pub x_forwarded_by: Vec<String>,
}

impl RequestData {
    /// Data of a bare request: host header allowed, nothing set.
    pub fn new() -> (r: RequestData)
        ensures
            r.req_view() == (ReqView {
                is_host_header_allowed: true,
                host_header: None,
                authority: None,
                scheme: None,
                forwarded: Seq::<Seq<char>>::empty(),
                x_forwarded_for: Seq::<Seq<char>>::empty(),
                x_forwarded_host: Seq::<Seq<char>>::empty(),
                x_forwarded_proto: Seq::<Seq<char>>::empty(),
                x_forwarded_by: Seq::<Seq<char>>::empty(),
            }),
    {
        let r = RequestData {
            is_host_header_allowed: true,
            host_header: None,
            authority: None,
            scheme: None,
            forwarded: Vec::new(),
            x_forwarded_for: Vec::new(),
            x_forwarded_host: Vec::new(),
            x_forwarded_proto: Vec::new(),
            x_forwarded_by: Vec::new(),
        };
        proof {
            assert(r.forwarded.deep_view() =~= Seq::<Seq<char>>::empty());
            assert(r.x_forwarded_for.deep_view() =~= Seq::<Seq<char>>::empty());
            assert(r.x_forwarded_host.deep_view() =~= Seq::<Seq<char>>::empty());
            assert(r.x_forwarded_proto.deep_view() =~= Seq::<Seq<char>>::empty());
            assert(r.x_forwarded_by.deep_view() =~= Seq::<Seq<char>>::empty());
        }
        r
    }
}

/// Clones a list of header values; the clone carries the same texts.
fn clone_strings(v: &Vec<String>) -> (r: Vec<String>)
    ensures
        r.deep_view() == v.deep_view(),
{
    let mut r: Vec<String> = Vec::new();
    let mut i: usize = 0;
    proof {
        assert(r.deep_view() =~= v.deep_view().subrange(0, 0));
    }
    while i < v.len()
        invariant
            0 <= i <= v.len(),
            r.deep_view() == v.deep_view().subrange(0, i as int),
        decreases v.len() - i,
    {
        let ghost old_dv = r.deep_view();
        r.push(v[i].clone());
        proof {
            assert(r@.last() == v@[i as int]);
            assert(r.deep_view() =~= old_dv.push(v@[i as int].deep_view()));
            assert(r.deep_view() =~= v.deep_view().subrange(0, i + 1));
        }
        i = i + 1;
    }
    proof {
        assert(v.deep_view().subrange(0, v.deep_view().len() as int) =~= v.deep_view());
    }
    r
}

impl RequestInformation for RequestData {
    open spec fn req_view(&self) -> ReqView {
        ReqView {
            is_host_header_allowed: self.is_host_header_allowed,
            host_header: self.host_header.deep_view(),
            authority: self.authority.deep_view(),
            scheme: self.scheme.deep_view(),
            forwarded: self.forwarded.deep_view(),
            x_forwarded_for: self.x_forwarded_for.deep_view(),
            x_forwarded_host: self.x_forwarded_host.deep_view(),
            x_forwarded_proto: self.x_forwarded_proto.deep_view(),
            x_forwarded_by: self.x_forwarded_by.deep_view(),
        }
    }

    fn is_host_header_allowed(&self) -> (r: bool) {
        self.is_host_header_allowed
    }

    fn host_header(&self) -> (r: Option<&str>) {
        match &self.host_header {
            Some(h) => Some(h.as_str()),
            None => None,
        }
    }

    fn authority(&self) -> (r: Option<&str>) {
        match &self.authority {
            Some(a) => Some(a.as_str()),
            None => None,
        }
    }

    fn forwarded(&self) -> (r: Vec<String>) {
        clone_strings(&self.forwarded)
    }

    fn x_forwarded_for(&self) -> (r: Vec<String>) {
        clone_strings(&self.x_forwarded_for)
    }

    fn x_forwarded_host(&self) -> (r: Vec<String>) {
        clone_strings(&self.x_forwarded_host)
    }

    fn x_forwarded_proto(&self) -> (r: Vec<String>) {
        clone_strings(&self.x_forwarded_proto)
    }

    fn x_forwarded_by(&self) -> (r: Vec<String>) {
        clone_strings(&self.x_forwarded_by)
    }

    fn default_scheme(&self) -> (r: Option<&str>) {
        match &self.scheme {
            Some(s) => Some(s.as_str()),
            None => None,
        }
    }
}

} // verus!
