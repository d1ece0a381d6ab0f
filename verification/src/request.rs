//! Request and response heads: methods, schemes, status codes and request
//! options, as guests set and read them.

use crate::fields::{bytes_eq, copy_bytes, is_tchar};
use vstd::prelude::*;

verus! {

/// An HTTP method as `wasi:http` names it; other methods carry their name.
#[derive(Clone, Debug)]
pub enum Method {
    Get,
    Head,
    Post,
    Put,
    Delete,
    Connect,
    Options,
    Trace,
    Patch,
    Other(Vec<u8>),
}

/// A method, with other methods given by their name as a byte sequence.
pub ghost enum MethodModel {
    Get,
    Head,
    Post,
    Put,
    Delete,
    Connect,
    Options,
    Trace,
    Patch,
    Other(Seq<u8>),
}

impl View for Method {
    type V = MethodModel;

    open spec fn view(&self) -> MethodModel {
        match self {
            Method::Get => MethodModel::Get,
            Method::Head => MethodModel::Head,
            Method::Post => MethodModel::Post,
            Method::Put => MethodModel::Put,
            Method::Delete => MethodModel::Delete,
            Method::Connect => MethodModel::Connect,
            Method::Options => MethodModel::Options,
            Method::Trace => MethodModel::Trace,
            Method::Patch => MethodModel::Patch,
            Method::Other(s) => MethodModel::Other(s@),
        }
    }
}

/// The method with the given name: a standard one when the name is its
/// (upper-case) name, otherwise an other method of that name.
pub open spec fn method_of_name(s: Seq<u8>) -> MethodModel {
    if s == seq![71u8, 69, 84] {
        MethodModel::Get
    } else if s == seq![72u8, 69, 65, 68] {
        MethodModel::Head
    } else if s == seq![80u8, 79, 83, 84] {
        MethodModel::Post
    } else if s == seq![80u8, 85, 84] {
        MethodModel::Put
    } else if s == seq![68u8, 69, 76, 69, 84, 69] {
        MethodModel::Delete
    } else if s == seq![67u8, 79, 78, 78, 69, 67, 84] {
        MethodModel::Connect
    } else if s == seq![79u8, 80, 84, 73, 79, 78, 83] {
        MethodModel::Options
    } else if s == seq![84u8, 82, 65, 67, 69] {
        MethodModel::Trace
    } else if s == seq![80u8, 65, 84, 67, 72] {
        MethodModel::Patch
    } else {
        MethodModel::Other(s)
    }
}

/// The name of a method: the upper-case name of a standard method, the
/// given name of an other one.
pub open spec fn method_name(m: MethodModel) -> Seq<u8> {
    match m {
        MethodModel::Get => seq![71u8, 69, 84],
        MethodModel::Head => seq![72u8, 69, 65, 68],
        MethodModel::Post => seq![80u8, 79, 83, 84],
        MethodModel::Put => seq![80u8, 85, 84],
        MethodModel::Delete => seq![68u8, 69, 76, 69, 84, 69],
        MethodModel::Connect => seq![67u8, 79, 78, 78, 69, 67, 84],
        MethodModel::Options => seq![79u8, 80, 84, 73, 79, 78, 83],
        MethodModel::Trace => seq![84u8, 82, 65, 67, 69],
        MethodModel::Patch => seq![80u8, 65, 84, 67, 72],
        MethodModel::Other(s) => s,
    }
}

/// Reading a method by its name keeps the name: the method read from any
/// name is named by it; and every standard method is read back from its
/// own name as itself, not as an other method.
pub proof fn lemma_method_names_roundtrip(s: Seq<u8>, m: MethodModel)
    ensures
        method_name(method_of_name(s)) == s,
        !(m is Other) ==> method_of_name(method_name(m)) == m,
{
    assert(seq![71u8, 69, 84] != seq![72u8, 69, 65, 68]) by {
        assert(seq![71u8, 69, 84].len() != seq![72u8, 69, 65, 68].len());
    }
    let names = seq![
        seq![71u8, 69, 84],
        seq![72u8, 69, 65, 68],
        seq![80u8, 79, 83, 84],
        seq![80u8, 85, 84],
        seq![68u8, 69, 76, 69, 84, 69],
        seq![67u8, 79, 78, 78, 69, 67, 84],
        seq![79u8, 80, 84, 73, 79, 78, 83],
        seq![84u8, 82, 65, 67, 69],
        seq![80u8, 65, 84, 67, 72],
    ];
    assert forall|i: int, j: int| 0 <= i < j < 9 implies names[i] != names[j] by {
        if names[i].len() == names[j].len() {
            assert(names[i][0] != names[j][0] || names[i][1] != names[j][1] || names[i][2]
                != names[j][2]);
        }
    }
}

/// A method name as HTTP accepts it: one or more `tchar`, case preserved.
pub open spec fn is_method_token(s: Seq<u8>) -> bool {
    s.len() > 0 && forall|i: int| 0 <= i < s.len() ==> is_tchar(#[trigger] s[i])
}

/// What a request's method becomes when a guest sets `m`: standard methods
/// as they are, other methods by their name if it is a valid token.
pub open spec fn set_method_spec(m: MethodModel) -> Option<MethodModel> {
    match m {
        MethodModel::Other(s) => if is_method_token(s) {
            Some(method_of_name(s))
        } else {
            None
        },
        _ => Some(m),
    }
}

/// `http::Method::from_bytes`: accepts exactly the method tokens.
#[verifier::external_body]
fn http_method_valid(name: &[u8]) -> (r: bool)
    ensures
        r == is_method_token(name@),
{
    http::Method::from_bytes(name).is_ok()
}

/// The method with the given name.
pub fn method_from_name(name: &[u8]) -> (r: Method)
    ensures
        r@ == method_of_name(name@),
{
    let get: Vec<u8> = vec![71u8, 69, 84];
    let head: Vec<u8> = vec![72u8, 69, 65, 68];
    let post: Vec<u8> = vec![80u8, 79, 83, 84];
    let put: Vec<u8> = vec![80u8, 85, 84];
    let delete: Vec<u8> = vec![68u8, 69, 76, 69, 84, 69];
    let connect: Vec<u8> = vec![67u8, 79, 78, 78, 69, 67, 84];
    let options: Vec<u8> = vec![79u8, 80, 84, 73, 79, 78, 83];
    let trace: Vec<u8> = vec![84u8, 82, 65, 67, 69];
    let patch: Vec<u8> = vec![80u8, 65, 84, 67, 72];
    proof {
        assert(get@ =~= seq![71u8, 69, 84]);
        assert(head@ =~= seq![72u8, 69, 65, 68]);
        assert(post@ =~= seq![80u8, 79, 83, 84]);
        assert(put@ =~= seq![80u8, 85, 84]);
        assert(delete@ =~= seq![68u8, 69, 76, 69, 84, 69]);
        assert(connect@ =~= seq![67u8, 79, 78, 78, 69, 67, 84]);
        assert(options@ =~= seq![79u8, 80, 84, 73, 79, 78, 83]);
        assert(trace@ =~= seq![84u8, 82, 65, 67, 69]);
        assert(patch@ =~= seq![80u8, 65, 84, 67, 72]);
    }
    if bytes_eq(name, get.as_slice()) {
        Method::Get
    } else if bytes_eq(name, head.as_slice()) {
        Method::Head
    } else if bytes_eq(name, post.as_slice()) {
        Method::Post
    } else if bytes_eq(name, put.as_slice()) {
        Method::Put
    } else if bytes_eq(name, delete.as_slice()) {
        Method::Delete
    } else if bytes_eq(name, connect.as_slice()) {
        Method::Connect
    } else if bytes_eq(name, options.as_slice()) {
        Method::Options
    } else if bytes_eq(name, trace.as_slice()) {
        Method::Trace
    } else if bytes_eq(name, patch.as_slice()) {
        Method::Patch
    } else {
        Method::Other(copy_bytes(name))
    }
}

/// Sets the method of a request as a guest asks: fails, changing nothing,
/// if an other method's name is not a valid token; a name of a standard
/// method becomes that method.
pub fn set_method(current: &mut Method, m: Method) -> (r: Result<(), ()>)
    ensures
        match set_method_spec(m@) {
            Some(v) => r is Ok && final(current)@ == v,
            None => r is Err && final(current)@ == old(current)@,
        },
{
    match m {
        Method::Other(s) => {
            if !http_method_valid(s.as_slice()) {
                return Err(());
            }
            *current = method_from_name(s.as_slice());
            Ok(())
        },
        other => {
            *current = other;
            Ok(())
        },
    }
}

/// A URI scheme as `wasi:http` names it.
#[derive(Clone, Debug)]
pub enum Scheme {
    Http,
    Https,
    Other(Vec<u8>),
}

/// A scheme, with other schemes given by their name as a byte sequence.
pub ghost enum SchemeModel {
    Http,
    Https,
    Other(Seq<u8>),
}

impl View for Scheme {
    type V = SchemeModel;

    open spec fn view(&self) -> SchemeModel {
        match self {
            Scheme::Http => SchemeModel::Http,
            Scheme::Https => SchemeModel::Https,
            Scheme::Other(s) => SchemeModel::Other(s@),
        }
    }
}

/// `http` in bytes.
pub open spec fn http_name() -> Seq<u8> {
    seq![104u8, 116, 116, 112]
}

/// `https` in bytes.
pub open spec fn https_name() -> Seq<u8> {
    seq![104u8, 116, 116, 112, 115]
}

/// A byte allowed in a scheme other than `http` and `https`.
pub open spec fn is_scheme_byte(b: u8) -> bool {
    b == 43 || b == 45 || b == 46 || (48 <= b <= 57) || (65 <= b <= 90) || (97 <= b <= 122) || b
        == 126
}

/// The longest scheme accepted.
pub const MAX_SCHEME_LEN: usize = 64;

/// A scheme name as HTTP accepts it: `http`, `https`, or at most
/// `MAX_SCHEME_LEN` scheme bytes.
pub open spec fn is_scheme_name(s: Seq<u8>) -> bool {
    s == http_name() || s == https_name() || (s.len() <= MAX_SCHEME_LEN && forall|i: int|
        0 <= i < s.len() ==> is_scheme_byte(#[trigger] s[i]))
}

/// The scheme with the given name.
pub open spec fn scheme_of_name(s: Seq<u8>) -> SchemeModel {
    if s == http_name() {
        SchemeModel::Http
    } else if s == https_name() {
        SchemeModel::Https
    } else {
        SchemeModel::Other(s)
    }
}

/// What a request's scheme becomes when a guest sets `s`.
pub open spec fn set_scheme_spec(s: SchemeModel) -> Option<SchemeModel> {
    match s {
        SchemeModel::Other(n) => if is_scheme_name(n) {
            Some(scheme_of_name(n))
        } else {
            None
        },
        _ => Some(s),
    }
}

/// `http::uri::Scheme::try_from`: accepts exactly the scheme names.
#[verifier::external_body]
fn http_scheme_valid(name: &[u8]) -> (r: bool)
    ensures
        r == is_scheme_name(name@),
{
    http::uri::Scheme::try_from(name).is_ok()
}

/// The scheme with the given name.
pub fn scheme_from_name(name: &[u8]) -> (r: Scheme)
    ensures
        r@ == scheme_of_name(name@),
{
    let http: Vec<u8> = vec![104u8, 116, 116, 112];
    let https: Vec<u8> = vec![104u8, 116, 116, 112, 115];
    proof {
        assert(http@ =~= http_name());
        assert(https@ =~= https_name());
    }
    if bytes_eq(name, http.as_slice()) {
        Scheme::Http
    } else if bytes_eq(name, https.as_slice()) {
        Scheme::Https
    } else {
        Scheme::Other(copy_bytes(name))
    }
}

/// Sets the scheme of a request as a guest asks: `None` clears it; an other
/// scheme must have a valid name, and `http` or `https` by name becomes that
/// scheme. Fails, changing nothing, on an invalid name.
pub fn set_scheme(current: &mut Option<Scheme>, s: Option<Scheme>) -> (r: Result<(), ()>)
    ensures
        match s {
            None => r is Ok && (*final(current)) is None,
            Some(x) => match set_scheme_spec(x@) {
                Some(v) => r is Ok && (*final(current)) is Some && (*final(current))->0@ == v,
                None => r is Err && final(current)@ == old(current)@,
            },
        },
{
    match s {
        None => {
            *current = None;
            Ok(())
        },
        Some(Scheme::Other(n)) => {
            if !http_scheme_valid(n.as_slice()) {
                return Err(());
            }
            *current = Some(scheme_from_name(n.as_slice()));
            Ok(())
        },
        Some(other) => {
            *current = Some(other);
            Ok(())
        },
    }
}

/// `http::StatusCode::from_u16`: accepts the codes from 100 to 999.
#[verifier::external_body]
fn http_status_valid(code: u16) -> (r: bool)
    ensures
        r == (100 <= code <= 999),
{
    http::StatusCode::from_u16(code).is_ok()
}

/// Sets the status code of a response as a guest asks: it must lie between
/// 100 and 999; otherwise nothing changes.
pub fn set_status_code(current: &mut u16, code: u16) -> (r: Result<(), ()>)
    ensures
        if 100 <= code <= 999 {
            r is Ok && *final(current) == code
        } else {
            r is Err && *final(current) == *old(current)
        },
{
    if !http_status_valid(code) {
        return Err(());
    }
    *current = code;
    Ok(())
}

/// Setting a method or scheme and reading it back gives the same value,
/// except that a standard method or scheme given by name reads back as that
/// standard one; setting it again changes nothing.
pub proof fn lemma_set_get_method(m: MethodModel)
    requires
        set_method_spec(m) is Some,
    ensures
        set_method_spec(set_method_spec(m)->0) == set_method_spec(m),
{
    match m {
        MethodModel::Other(s) => {
            let v = method_of_name(s);
            match v {
                MethodModel::Other(t) => {
                    assert(t == s);
                },
                _ => {},
            }
        },
        _ => {},
    }
}

/// Setting a scheme twice is the same as setting it once.
pub proof fn lemma_set_get_scheme(s: SchemeModel)
    requires
        set_scheme_spec(s) is Some,
    ensures
        set_scheme_spec(set_scheme_spec(s)->0) == set_scheme_spec(s),
{
}

/// Why a request option was refused.
#[derive(Clone, Copy, Debug, PartialEq, Eq, Structural)]
pub enum RequestOptionsError {
    /// The option is not supported.
    NotSupported,
    /// The options belong to a request and may not be modified.
    Immutable,
}

/// A duration stored in the options does not fit what a guest can read.
#[derive(Clone, Copy, Debug, PartialEq, Eq, Structural)]
pub struct DurationTooLong;

/// The timeouts of an outgoing request, in nanoseconds.
#[derive(Clone, Copy, Debug, PartialEq, Eq, Structural, Default)]
pub struct RequestOptions {
    /// How long to wait for a connection to be established.
    pub connect_timeout: Option<u128>,
    /// How long to wait for the first byte of the response body.
    pub first_byte_timeout: Option<u128>,
    /// How long to wait between frames of the response body.
    pub between_bytes_timeout: Option<u128>,
}

/// The timeout as a guest reads it: in nanoseconds, if it fits a `u64`.
pub open spec fn read_timeout(t: Option<u128>) -> Result<Option<u64>, DurationTooLong> {
    match t {
        None => Ok(None),
        Some(ns) => if ns <= u64::MAX {
            Ok(Some(ns as u64))
        } else {
            Err(DurationTooLong)
        },
    }
}

/// Reads a timeout, in nanoseconds.
pub fn get_timeout(t: Option<u128>) -> (r: Result<Option<u64>, DurationTooLong>)
    ensures
        r == read_timeout(t),
{
    match t {
        None => Ok(None),
        Some(ns) => if ns <= u64::MAX as u128 {
            Ok(Some(ns as u64))
        } else {
            Err(DurationTooLong)
        },
    }
}

/// Sets a timeout given in nanoseconds; options that belong to a request
/// (`mutable` false) refuse, changing nothing.
pub fn set_timeout(t: &mut Option<u128>, mutable: bool, duration: Option<u64>) -> (r: Result<
    (),
    RequestOptionsError,
>)
    ensures
        if mutable {
            r is Ok && *final(t) == match duration {
                Some(d) => Some(d as u128),
                None => None::<u128>,
            }
        } else {
            r == Err::<(), RequestOptionsError>(RequestOptionsError::Immutable) && *final(t)
                == *old(t)
        },
{
    if !mutable {
        return Err(RequestOptionsError::Immutable);
    }
    *t = match duration {
        Some(d) => Some(d as u128),
        None => None,
    };
    Ok(())
}

/// A timeout a guest sets reads back unchanged.
pub proof fn lemma_timeout_roundtrip(d: Option<u64>)
    ensures
        read_timeout(
            match d {
                Some(x) => Some(x as u128),
                None => None::<u128>,
            },
        ) == Ok::<Option<u64>, DurationTooLong>(d),
{
}

/// Whether a text contains `:`.
fn has_colon(s: &str) -> (r: bool)
    ensures
        r == s@.contains(':'),
{
    broadcast use vstd::string::axiom_spec_iter;
    let mut found = false;
    for c in iter: s.chars()
        invariant
            iter.seq() == s@,
            found == (exists|k: int| 0 <= k < iter.index() && iter.seq()[k] == ':'),
    {
        if c == ':' {
            found = true;
        }
    }
    found
}

/// What `http::uri::Authority::try_from` makes of a text: `None` when it is
/// not a valid authority, else the port it names, if any.
pub uninterp spec fn authority_port_of(text: Seq<char>) -> Option<Option<u16>>;

/// `http::uri::Authority::try_from`, then `port_u16` of the result. The
/// parsed authority reads back as the text given.
#[verifier::external_body]
fn parse_authority_port(text: &str) -> (r: Option<Option<u16>>)
    ensures
        r == authority_port_of(text@),
{
    match http::uri::Authority::try_from(text) {
        Ok(a) => Some(a.port_u16()),
        Err(_) => None,
    }
}

/// What a request's authority becomes when a guest sets `text`: it must be
/// a valid authority, and one with a `:` must name a port that fits a
/// `u16`.
pub open spec fn set_authority_spec(text: Seq<char>) -> bool {
    match authority_port_of(text) {
        None => false,
        Some(port) => !(text.contains(':') && port is None),
    }
}

/// Sets the authority of a request as a guest asks: `None` clears it;
/// otherwise it must be valid (see `set_authority_spec`). Fails, changing
/// nothing, on an invalid authority.
pub fn set_authority(current: &mut Option<String>, authority: Option<String>) -> (r: Result<(), ()>)
    ensures
        match authority {
            None => r is Ok && (*final(current)) is None,
            Some(a) => if set_authority_spec(a@) {
                r is Ok && (*final(current)) is Some && (*final(current))->0@ == a@
            } else {
                r is Err && (*final(current)) == *old(current)
            },
        },
{
    let a = match authority {
        None => {
            *current = None;
            return Ok(());
        },
        Some(a) => a,
    };
    let has_port = has_colon(a.as_str());
    let port = match parse_authority_port(a.as_str()) {
        Some(port) => port,
        None => return Err(()),
    };
    if has_port && port.is_none() {
        return Err(());
    }
    *current = Some(a);
    Ok(())
}

/// The path and query that `http::uri::PathAndQuery::try_from` makes of a
/// text, as it reads back, if the text is valid.
pub uninterp spec fn path_and_query_of(text: Seq<char>) -> Option<Seq<char>>;

/// `http::uri::PathAndQuery::try_from`, then `as_str` of the result.
#[verifier::external_body]
fn parse_path_and_query(text: &str) -> (r: Option<String>)
    ensures
        match r {
            Some(p) => path_and_query_of(text@) == Some(p@),
            None => path_and_query_of(text@) is None,
        },
{
    match http::uri::PathAndQuery::try_from(text) {
        Ok(p) => Some(p.as_str().to_string()),
        Err(_) => None,
    }
}

/// Sets the path with query of a request as a guest asks: `None` clears
/// it; otherwise it must be valid, and is stored as it reads back. Fails,
/// changing nothing, on an invalid one.
pub fn set_path_with_query(current: &mut Option<String>, path_with_query: Option<String>) -> (r:
    Result<(), ()>)
    ensures
        match path_with_query {
            None => r is Ok && (*final(current)) is None,
            Some(p) => match path_and_query_of(p@) {
                Some(stored) => r is Ok && (*final(current)) is Some && (*final(current))->0@
                    == stored,
                None => r is Err && (*final(current)) == *old(current),
            },
        },
{
    match path_with_query {
        None => {
            *current = None;
            Ok(())
        },
        Some(p) => match parse_path_and_query(p.as_str()) {
            Some(stored) => {
                *current = Some(stored);
                Ok(())
            },
            None => Err(()),
        },
    }
}

} // verus!
