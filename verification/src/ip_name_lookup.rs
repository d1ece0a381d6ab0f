//! `wasi:sockets/ip-name-lookup`: which names are resolved, which are
//! answered directly, and how the addresses found are reported.

use vstd::prelude::*;

verus! {

/// The errors of `resolve-addresses`.
#[derive(Clone, Copy, Debug, PartialEq, Eq, Structural)]
pub enum ErrorCode {
    /// The name is neither a valid domain name nor an IP address.
    InvalidArgument,
    /// The name could not be resolved.
    NameUnresolvable,
    /// Name lookups are not allowed.
    PermanentResolverFailure,
}

/// An IP address: four octets or eight 16-bit segments.
#[derive(Clone, Copy, Debug)]
pub enum IpAddress {
    Ipv4([u8; 4]),
    Ipv6([u16; 8]),
}

/// A host name after parsing: a domain in its ASCII form, or an address.
#[derive(Debug)]
pub enum ParsedHost {
    Domain(String),
    Ipv4([u8; 4]),
    Ipv6([u16; 8]),
}

/// What a parsed host stands for.
pub ghost enum HostView {
    Domain(Seq<char>),
    Ipv4([u8; 4]),
    Ipv6([u16; 8]),
}

impl View for ParsedHost {
    type V = HostView;

    open spec fn view(&self) -> HostView {
        match self {
            ParsedHost::Domain(d) => HostView::Domain(d@),
            ParsedHost::Ipv4(a) => HostView::Ipv4(*a),
            ParsedHost::Ipv6(a) => HostView::Ipv6(*a),
        }
    }
}

/// What a parse result stands for.
pub open spec fn parsed_view(r: Option<ParsedHost>) -> Option<HostView> {
    match r {
        Some(h) => Some(h@),
        None => None,
    }
}

/// The host that `url::Host::parse` makes of a name, if any.
pub uninterp spec fn url_host_of(name: Seq<char>) -> Option<HostView>;

/// The segments of the IPv6 address that `Ipv6Addr::from_str` reads from a
/// name, if any.
pub uninterp spec fn ipv6_of(name: Seq<char>) -> Option<[u16; 8]>;

/// `url::Host::parse`: validates a domain name or an IP address (an IPv6
/// one in brackets) and converts unicode domains to punycode.
#[verifier::external_body]
fn url_host_parse(name: &str) -> (r: Option<ParsedHost>)
    ensures
        parsed_view(r) == url_host_of(name@),
{
    match url::Host::parse(name) {
        Ok(url::Host::Domain(d)) => Some(ParsedHost::Domain(d)),
        Ok(url::Host::Ipv4(a)) => Some(ParsedHost::Ipv4(a.octets())),
        Ok(url::Host::Ipv6(a)) => Some(ParsedHost::Ipv6(a.segments())),
        Err(_) => None,
    }
}

/// `Ipv6Addr::from_str`: reads a bare IPv6 address.
#[verifier::external_body]
fn ipv6_from_str(name: &str) -> (r: Option<[u16; 8]>)
    ensures
        r == ipv6_of(name@),
{
    match name.parse::<core::net::Ipv6Addr>() {
        Ok(a) => Some(a.segments()),
        Err(_) => None,
    }
}

/// The host a name stands for: what `url::Host::parse` makes of it, else
/// a bare IPv6 address (which that parser only takes in brackets).
pub open spec fn host_of_name(name: Seq<char>) -> Option<HostView> {
    match url_host_of(name) {
        Some(h) => Some(h),
        None => match ipv6_of(name) {
            Some(a) => Some(HostView::Ipv6(a)),
            None => None,
        },
    }
}

/// Parses the name given to `resolve-addresses`.
pub fn parse_host(name: &str) -> (r: Option<ParsedHost>)
    ensures
        parsed_view(r) == host_of_name(name@),
{
    match url_host_parse(name) {
        Some(h) => Some(h),
        None => match ipv6_from_str(name) {
            Some(a) => Some(ParsedHost::Ipv6(a)),
            None => None,
        },
    }
}

/// What `resolve-addresses` does with a valid name.
#[derive(Debug)]
pub enum Resolution {
    /// The name is an address: these are the answer.
    Addresses(Vec<IpAddress>),
    /// The name is a domain, to be looked up (with port 0).
    Lookup(String),
}

/// The outcome of `resolve-addresses` for a parsed host, before any
/// lookup: refused unless name lookups are allowed; an address answers
/// itself; a domain is looked up.
pub open spec fn resolution_matches(host: HostView, allowed: bool, r: Result<Resolution, ErrorCode>) -> bool {
    if !allowed {
        r == Err::<Resolution, ErrorCode>(ErrorCode::PermanentResolverFailure)
    } else {
        match host {
            HostView::Ipv4(a) => r matches Ok(Resolution::Addresses(v)) && v@ == seq![IpAddress::Ipv4(a)],
            HostView::Ipv6(a) => r matches Ok(Resolution::Addresses(v)) && v@ == seq![IpAddress::Ipv6(a)],
            HostView::Domain(d) => r matches Ok(Resolution::Lookup(s)) && s@ == d,
        }
    }
}

/// Decides what to do with a parsed host.
pub fn plan_resolution(host: ParsedHost, allowed: bool) -> (r: Result<Resolution, ErrorCode>)
    ensures
        resolution_matches(host@, allowed, r),
{
    if !allowed {
        return Err(ErrorCode::PermanentResolverFailure);
    }
    match host {
        ParsedHost::Ipv4(a) => {
            let v = vec![IpAddress::Ipv4(a)];
            assert(v@ =~= seq![IpAddress::Ipv4(a)]);
            Ok(Resolution::Addresses(v))
        },
        ParsedHost::Ipv6(a) => {
            let v = vec![IpAddress::Ipv6(a)];
            assert(v@ =~= seq![IpAddress::Ipv6(a)]);
            Ok(Resolution::Addresses(v))
        },
        ParsedHost::Domain(d) => Ok(Resolution::Lookup(d)),
    }
}

/// The first step of `resolve-addresses`: an invalid name is refused
/// before the permission is checked; otherwise as `plan_resolution`.
pub fn resolve_plan(name: &str, allowed: bool) -> (r: Result<Resolution, ErrorCode>)
    ensures
        match host_of_name(name@) {
            None => r == Err::<Resolution, ErrorCode>(ErrorCode::InvalidArgument),
            Some(h) => resolution_matches(h, allowed, r),
        },
{
    match parse_host(name) {
        None => Err(ErrorCode::InvalidArgument),
        Some(h) => plan_resolution(h, allowed),
    }
}

/// Whether segments spell an IPv4-mapped IPv6 address, `::ffff:a.b.c.d`.
pub open spec fn is_ipv4_mapped(s: Seq<u16>) -> bool {
    s.len() == 8 && s[0] == 0 && s[1] == 0 && s[2] == 0 && s[3] == 0 && s[4] == 0 && s[5]
        == 0xffff
}

/// The IPv4 octets of an IPv4-mapped IPv6 address.
pub open spec fn mapped_octets(s: Seq<u16>) -> Seq<u8> {
    seq![(s[6] / 256) as u8, (s[6] % 256) as u8, (s[7] / 256) as u8, (s[7] % 256) as u8]
}

/// Whether `r` is the canonical form of `a`: an IPv4-mapped IPv6 address
/// becomes the IPv4 address it maps; any other address stays as it is.
pub open spec fn is_canonical_of(a: IpAddress, r: IpAddress) -> bool {
    match a {
        IpAddress::Ipv6(s) => if is_ipv4_mapped(s@) {
            r matches IpAddress::Ipv4(o) && o@ == mapped_octets(s@)
        } else {
            r matches IpAddress::Ipv6(t) && t == s
        },
        IpAddress::Ipv4(o) => r matches IpAddress::Ipv4(p) && p == o,
    }
}

/// The canonical form of an address (as `IpAddr::to_canonical`).
pub fn canonical_address(a: IpAddress) -> (r: IpAddress)
    ensures
        is_canonical_of(a, r),
{
    match a {
        IpAddress::Ipv4(o) => IpAddress::Ipv4(o),
        IpAddress::Ipv6(s) => {
            if s[0] == 0 && s[1] == 0 && s[2] == 0 && s[3] == 0 && s[4] == 0 && s[5] == 0xffff {
                let o: [u8; 4] = [(s[6] / 256) as u8, (s[6] % 256) as u8, (s[7] / 256) as u8, (
                s[7] % 256) as u8];
                assert(o@ =~= mapped_octets(s@));
                IpAddress::Ipv4(o)
            } else {
                IpAddress::Ipv6(s)
            }
        },
    }
}

/// The answer of `resolve-addresses` for a domain, given what the lookup
/// found (`None` if it failed): the addresses in canonical form, in the
/// order found.
pub fn lookup_answer(found: Option<Vec<IpAddress>>) -> (r: Result<Vec<IpAddress>, ErrorCode>)
    ensures
        match found {
            None => r == Err::<Vec<IpAddress>, ErrorCode>(ErrorCode::NameUnresolvable),
            Some(v) => r matches Ok(w) && w@.len() == v@.len() && forall|i: int|
                0 <= i < v@.len() ==> is_canonical_of(#[trigger] v@[i], w@[i]),
        },
{
    let addrs = match found {
        None => return Err(ErrorCode::NameUnresolvable),
        Some(v) => v,
    };
    let mut out: Vec<IpAddress> = Vec::with_capacity(addrs.len());
    let mut i: usize = 0;
    while i < addrs.len()
        invariant
            i <= addrs@.len(),
            out@.len() == i,
            forall|k: int| 0 <= k < i ==> is_canonical_of(#[trigger] addrs@[k], out@[k]),
        decreases addrs@.len() - i,
    {
        out.push(canonical_address(addrs[i]));
        i = i + 1;
    }
    Ok(out)
}

} // verus!
