//! HTTP header fields: validation of names and values, and the operations of
//! the `wasi:http` `fields` resource over an `http::HeaderMap`.

use vstd::prelude::*;
use vstd::string::StringSliceAdditionalSpecFns;

verus! {

/// Why a header field operation was refused.
#[derive(Clone, Copy, Debug, PartialEq, Eq, Structural)]
pub enum HeaderError {
    /// The name or a value is not valid.
    InvalidSyntax,
    /// The name is forbidden for guests.
    Forbidden,
    /// The fields may not be modified.
    Immutable,
}

/// A byte allowed in a header name (`tchar` of RFC 9110).
pub open spec fn is_tchar(b: u8) -> bool {
    b == 33 || (35 <= b <= 39) || b == 42 || b == 43 || b == 45 || b == 46 || (48 <= b <= 57)
        || (65 <= b <= 90) || (94 <= b <= 122) || b == 124 || b == 126
}

/// ASCII lowercase of a byte.
pub open spec fn lower_byte(b: u8) -> u8 {
    if 65 <= b <= 90 {
        (b + 32) as u8
    } else {
        b
    }
}

/// The longest header name accepted.
pub const MAX_HEADER_NAME_LEN: usize = 65535;

/// The normalized (lowercase) form of a header name, if `s` is a valid one:
/// between 1 and `MAX_HEADER_NAME_LEN` bytes, all of them `tchar`.
pub open spec fn parse_field_name(s: Seq<u8>) -> Option<Seq<u8>> {
    if 1 <= s.len() <= MAX_HEADER_NAME_LEN && forall|i: int| 0 <= i < s.len() ==> is_tchar(#[trigger] s[i]) {
        Some(Seq::new(s.len(), |i: int| lower_byte(s[i])))
    } else {
        None
    }
}

/// A byte allowed in a header value: visible or extended bytes, space and
/// horizontal tab, but not other control bytes or DEL.
pub open spec fn is_value_byte(b: u8) -> bool {
    (b >= 32 && b != 127) || b == 9
}

/// Whether all bytes of `s` may appear in a header value.
pub open spec fn field_value_valid(s: Seq<u8>) -> bool {
    forall|i: int| 0 <= i < s.len() ==> is_value_byte(#[trigger] s[i])
}

/// The name `content-length`.
pub open spec fn content_length_name() -> Seq<u8> {
    seq![99u8, 111, 110, 116, 101, 110, 116, 45, 108, 101, 110, 103, 116, 104]
}

/// An ASCII decimal digit.
pub open spec fn is_digit(b: u8) -> bool {
    48 <= b <= 57
}

/// The number that a string of decimal digits denotes.
pub open spec fn decimal_value(d: Seq<u8>) -> nat
    decreases d.len(),
{
    if d.len() == 0 {
        0
    } else {
        decimal_value(d.drop_last()) * 10 + (d.last() - 48) as nat
    }
}

/// The digits of an unsigned decimal number as `u64` parsing sees them: the
/// string without one leading `+`.
pub open spec fn u64_digits(s: Seq<u8>) -> Seq<u8> {
    if s.len() > 0 && s[0] == 43 {
        s.skip(1)
    } else {
        s
    }
}

/// The value of `s` read as a `u64` in decimal: an optional `+`, then one or
/// more digits, denoting a number that fits.
pub open spec fn parse_u64_spec(s: Seq<u8>) -> Option<u64> {
    let d = u64_digits(s);
    if d.len() > 0 && (forall|i: int| 0 <= i < d.len() ==> is_digit(#[trigger] d[i]))
        && decimal_value(d) <= u64::MAX {
        Some(decimal_value(d) as u64)
    } else {
        None
    }
}

/// The shortest decimal representation of `v`.
pub open spec fn decimal_bytes(v: nat) -> Seq<u8>
    decreases v,
{
    if v < 10 {
        seq![(v + 48) as u8]
    } else {
        decimal_bytes(v / 10).push((v % 10 + 48) as u8)
    }
}

proof fn lemma_decimal_prefix_grows(d: Seq<u8>, i: int, j: int)
    requires
        0 <= i <= j <= d.len(),
        forall|k: int| 0 <= k < d.len() ==> is_digit(#[trigger] d[k]),
    ensures
        decimal_value(d.take(i)) <= decimal_value(d.take(j)),
    decreases j - i,
{
    if i < j {
        lemma_decimal_prefix_grows(d, i, j - 1);
        assert(d.take(j).drop_last() =~= d.take(j - 1));
        assert(d.take(j).last() == d[j - 1]);
        assert(decimal_value(d.take(j - 1)) * 10 >= decimal_value(d.take(j - 1))) by (
        nonlinear_arith);
    }
}

/// Reads a `u64` written in decimal, with an optional leading `+`.
pub fn parse_u64(s: &[u8]) -> (r: Option<u64>)
    ensures
        r == parse_u64_spec(s@),
{
    let start: usize = if s.len() > 0 && s[0] == 43 {
        1
    } else {
        0
    };
    let ghost d = u64_digits(s@);
    proof {
        assert(d =~= s@.skip(start as int));
    }
    if start >= s.len() {
        return None;
    }
    let mut acc: u64 = 0;
    let mut i: usize = start;
    while i < s.len()
        invariant
            start <= i <= s.len(),
            d == s@.skip(start as int),
            d == u64_digits(s@),
            d.len() > 0,
            forall|k: int| 0 <= k < i - start ==> is_digit(#[trigger] d[k]),
            acc == decimal_value(d.take(i - start)),
        decreases s.len() - i,
    {
        let b = s[i];
        if b < 48 || b > 57 {
            proof {
                assert(d[i - start] == b);
            }
            return None;
        }
        proof {
            assert(d.take(i - start + 1).drop_last() =~= d.take(i - start));
            assert(d.take(i - start + 1).last() == b);
        }
        let digit = (b - 48) as u64;
        let next = match acc.checked_mul(10) {
            Some(m) => m.checked_add(digit),
            None => None,
        };
        match next {
            Some(n) => {
                acc = n;
            },
            None => {
                proof {
                    assert(decimal_value(d.take(i - start + 1)) == acc * 10 + digit);
                    assert(acc * 10 + digit > u64::MAX);
                    if forall|k: int| 0 <= k < d.len() ==> is_digit(#[trigger] d[k]) {
                        lemma_decimal_prefix_grows(d, i - start + 1, d.len() as int);
                        assert(d.take(d.len() as int) =~= d);
                    }
                }
                return None;
            },
        }
        i = i + 1;
    }
    proof {
        assert(d.take(d.len() as int) =~= d);
    }
    Some(acc)
}

/// Writes `v` in decimal, without leading zeros.
pub fn u64_to_decimal(v: u64) -> (r: Vec<u8>)
    ensures
        r@ == decimal_bytes(v as nat),
    decreases v,
{
    if v < 10 {
        let mut r = Vec::new();
        r.push((v as u8) + 48);
        r
    } else {
        let mut r = u64_to_decimal(v / 10);
        r.push(((v % 10) as u8) + 48);
        r
    }
}

/// What is stored for a header value given by a guest: a `Content-Length`
/// must be a `u64` and is stored in its shortest decimal form; any other
/// value is stored as given if its bytes are valid.
pub open spec fn parse_header_value_spec(name: Seq<u8>, value: Seq<u8>) -> Result<
    Seq<u8>,
    HeaderError,
> {
    if name == content_length_name() {
        match parse_u64_spec(value) {
            Some(v) => Ok(decimal_bytes(v as nat)),
            None => Err(HeaderError::InvalidSyntax),
        }
    } else if field_value_valid(value) {
        Ok(value)
    } else {
        Err(HeaderError::InvalidSyntax)
    }
}

/// Whether a normalized name is `content-length`.
fn is_content_length(name: &[u8]) -> (r: bool)
    ensures
        r == (name@ == content_length_name()),
{
    let cl: Vec<u8> = vec![99u8, 111, 110, 116, 101, 110, 116, 45, 108, 101, 110, 103, 116, 104];
    proof {
        assert(cl@ =~= content_length_name());
    }
    bytes_eq(name, cl.as_slice())
}

/// A vector holding the bytes of `s`.
pub fn copy_bytes(s: &[u8]) -> (r: Vec<u8>)
    ensures
        r@ == s@,
{
    let mut r: Vec<u8> = Vec::with_capacity(s.len());
    let mut i: usize = 0;
    while i < s.len()
        invariant
            i <= s.len(),
            r@ == s@.take(i as int),
        decreases s.len() - i,
    {
        r.push(s[i]);
        i = i + 1;
        proof {
            assert(r@ =~= s@.take(i as int));
        }
    }
    proof {
        assert(s@.take(s@.len() as int) =~= s@);
    }
    r
}

/// Byte-wise equality of two slices.
pub fn bytes_eq(a: &[u8], b: &[u8]) -> (r: bool)
    ensures
        r == (a@ == b@),
{
    if a.len() != b.len() {
        return false;
    }
    let mut i: usize = 0;
    while i < a.len()
        invariant
            a@.len() == b@.len(),
            i <= a.len(),
            forall|k: int| 0 <= k < i ==> a@[k] == b@[k],
        decreases a.len() - i,
    {
        if a[i] != b[i] {
            return false;
        }
        i = i + 1;
    }
    proof {
        assert(a@ =~= b@);
    }
    true
}

/// Checks a header value given by a guest for the given (normalized) name
/// and returns the bytes to store.
pub fn parse_header_value(name: &[u8], value: &[u8]) -> (r: Result<Vec<u8>, HeaderError>)
    ensures
        match parse_header_value_spec(name@, value@) {
            Ok(v) => r is Ok && r->Ok_0@ == v,
            Err(e) => r == Err::<Vec<u8>, HeaderError>(e),
        },
{
    if is_content_length(name) {
        match parse_u64(value) {
            Some(v) => Ok(u64_to_decimal(v)),
            None => Err(HeaderError::InvalidSyntax),
        }
    } else if header_value_valid(value) {
        Ok(copy_bytes(value))
    } else {
        Err(HeaderError::InvalidSyntax)
    }
}

/// `http::HeaderName::from_bytes`, returning the normalized name. It accepts
/// exactly the names that `parse_field_name` accepts and yields their
/// lowercase form.
#[verifier::external_body]
fn parse_header_name(bytes: &[u8]) -> (r: Option<Vec<u8>>)
    ensures
        match parse_field_name(bytes@) {
            Some(n) => r is Some && r->0@ == n,
            None => r is None,
        },
{
    match http::HeaderName::from_bytes(bytes) {
        Ok(n) => Some(n.as_str().as_bytes().to_vec()),
        Err(_) => None,
    }
}

/// `http::HeaderValue::from_bytes`: succeeds exactly when every byte may
/// appear in a header value.
#[verifier::external_body]
fn header_value_valid(bytes: &[u8]) -> (r: bool)
    ensures
        r == field_value_valid(bytes@),
{
    http::HeaderValue::from_bytes(bytes).is_ok()
}

#[verifier::external_type_specification]
#[verifier::external_body]
#[verifier::reject_recursive_types(T)]
pub struct ExHeaderMap<T>(http::HeaderMap<T>);

#[verifier::external_type_specification]
#[verifier::external_body]
pub struct ExHeaderValue(http::HeaderValue);

/// What an `http::HeaderMap` holds: for each (normalized) name, its values
/// in the order they were added.
pub uninterp spec fn header_map_contents(m: http::HeaderMap) -> Map<Seq<u8>, Seq<Seq<u8>>>;

/// The values a map holds for `name`, none if it lacks the name.
pub open spec fn values_of(c: Map<Seq<u8>, Seq<Seq<u8>>>, name: Seq<u8>) -> Seq<Seq<u8>> {
    if c.contains_key(name) {
        c[name]
    } else {
        Seq::empty()
    }
}

/// The contents after appending `value` under `name`.
pub open spec fn appended(c: Map<Seq<u8>, Seq<Seq<u8>>>, name: Seq<u8>, value: Seq<u8>) -> Map<
    Seq<u8>,
    Seq<Seq<u8>>,
> {
    c.insert(name, values_of(c, name).push(value))
}

/// A number of distinct names below which `http::HeaderMap` never refuses
/// an append: its index table holds at most 2^15 slots, and it only tries
/// to outgrow a full table once it holds a fifth of that many names. At or
/// above it, whether an append is refused depends on how the names hash.
pub const MAX_FIELD_NAMES: usize = 6554;

/// Whether a map with these contents holds fewer names than
/// `MAX_FIELD_NAMES`, so that its next append cannot be refused.
pub open spec fn below_limit(c: Map<Seq<u8>, Seq<Seq<u8>>>) -> bool {
    c.dom().finite() && c.dom().len() < MAX_FIELD_NAMES
}

/// `http::HeaderMap` refused to grow past its capacity limit.
#[derive(Clone, Copy, Debug, PartialEq, Eq, Structural)]
pub struct FieldsFull;

/// The contents of an empty map.
pub open spec fn no_fields() -> Map<Seq<u8>, Seq<Seq<u8>>> {
    Map::empty()
}

/// The number of names of a map, which is finite.
pub open spec fn names_count(c: Map<Seq<u8>, Seq<Seq<u8>>>) -> Option<nat> {
    if c.dom().finite() {
        Some(c.dom().len())
    } else {
        None
    }
}

/// `http::HeaderMap::new`: an empty map.
#[verifier::external_body]
fn map_new() -> (r: http::HeaderMap)
    ensures
        header_map_contents(r) == no_fields(),
{
    http::HeaderMap::new()
}

/// `http::HeaderMap::keys_len`: the number of distinct names held.
#[verifier::external_body]
fn map_keys_len(m: &http::HeaderMap) -> (r: usize)
    ensures
        Some(r as nat) == names_count(header_map_contents(*m)),
{
    m.keys_len()
}

/// `http::HeaderMap::try_append`: adds `value` after the values held for
/// `name`, or reports `MaxSizeReached`, leaving the contents as they were.
/// The name must be normalized and the value valid, as the key and value
/// types of the map guarantee. With fewer than `MAX_FIELD_NAMES` names the
/// map never reports `MaxSizeReached`.
#[verifier::external_body]
fn map_append(m: &mut http::HeaderMap, name: &[u8], value: &[u8]) -> (r: Result<(), FieldsFull>)
    requires
        parse_field_name(name@) == Some(name@),
        field_value_valid(value@),
    ensures
        r is Ok ==> header_map_contents(*final(m)) == appended(
            header_map_contents(*old(m)),
            name@,
            value@,
        ),
        r is Err ==> header_map_contents(*final(m)) == header_map_contents(*old(m)),
        below_limit(header_map_contents(*old(m))) ==> r is Ok,
{
    match (http::HeaderName::from_bytes(name), http::HeaderValue::from_bytes(value)) {
        (Ok(n), Ok(v)) => match m.try_append(n, v) {
            Ok(_) => Ok(()),
            Err(_) => Err(FieldsFull),
        },
        _ => Ok(()),
    }
}

/// `http::HeaderMap::remove`: drops all values held for `name`.
#[verifier::external_body]
fn map_remove(m: &mut http::HeaderMap, name: &[u8])
    requires
        parse_field_name(name@) == Some(name@),
    ensures
        header_map_contents(*final(m)) == header_map_contents(*old(m)).remove(name@),
{
    if let Ok(n) = http::HeaderName::from_bytes(name) {
        m.remove(&n);
    }
}

/// `http::HeaderMap::get_all`: the values held for `name`, in order.
#[verifier::external_body]
fn map_get_all(m: &http::HeaderMap, name: &[u8]) -> (r: Vec<Vec<u8>>)
    requires
        parse_field_name(name@) == Some(name@),
    ensures
        r@.map_values(|v: Vec<u8>| v@) == values_of(header_map_contents(*m), name@),
{
    match http::HeaderName::from_bytes(name) {
        Ok(n) => m.get_all(&n).iter().map(|v| v.as_bytes().to_vec()).collect(),
        Err(_) => Vec::new(),
    }
}

/// `http::HeaderMap::contains_key`: whether any value is held for `name`.
#[verifier::external_body]
fn map_contains_key(m: &http::HeaderMap, name: &[u8]) -> (r: bool)
    requires
        parse_field_name(name@) == Some(name@),
    ensures
        r == header_map_contents(*m).contains_key(name@),
{
    match http::HeaderName::from_bytes(name) {
        Ok(n) => m.contains_key(&n),
        Err(_) => false,
    }
}

/// The pairs of a list of entries, as byte sequences.
pub open spec fn pairs_view(v: Seq<(Vec<u8>, Vec<u8>)>) -> Seq<(Seq<u8>, Seq<u8>)> {
    v.map_values(|p: (Vec<u8>, Vec<u8>)| (p.0@, p.1@))
}

/// The values of the entries named `name`, in the order of the list.
pub open spec fn entries_named(e: Seq<(Seq<u8>, Seq<u8>)>, name: Seq<u8>) -> Seq<Seq<u8>> {
    e.filter(|p: (Seq<u8>, Seq<u8>)| p.0 == name).map_values(|p: (Seq<u8>, Seq<u8>)| p.1)
}

/// `http::HeaderMap::iter`: every (name, value) pair held. The order across
/// names is the map's own; the values of each name come in their order.
#[verifier::external_body]
fn map_entries(m: &http::HeaderMap) -> (r: Vec<(Vec<u8>, Vec<u8>)>)
    ensures
        forall|name: Seq<u8>|
            entries_named(pairs_view(r@), name) == values_of(header_map_contents(*m), name),
{
    m.iter().map(|(n, v)| (n.as_str().as_bytes().to_vec(), v.as_bytes().to_vec())).collect()
}

/// Decides which header names guests may not set.
pub trait WasiHttpView {
    /// Whether the (normalized) name is forbidden.
    spec fn forbids(&self, name: Seq<u8>) -> bool;

    /// Whether the given normalized header name should be considered
    /// forbidden for requests and responses originating in the guest.
    fn is_forbidden_header(&self, name: &[u8]) -> (r: bool)
        ensures
            r == self.forbids(name@),
    ;
}


/// The names forbidden by default: hop-by-hop and connection-level headers.
pub open spec fn default_forbidden_headers() -> Seq<Seq<u8>> {
    seq![
        seq![99u8, 111, 110, 110, 101, 99, 116, 105, 111, 110],
        seq![107u8, 101, 101, 112, 45, 97, 108, 105, 118, 101],
        seq![112u8, 114, 111, 120, 121, 45, 97, 117, 116, 104, 101, 110, 116, 105, 99, 97, 116, 101],
        seq![112u8, 114, 111, 120, 121, 45, 97, 117, 116, 104, 111, 114, 105, 122, 97, 116, 105, 111, 110],
        seq![112u8, 114, 111, 120, 121, 45, 99, 111, 110, 110, 101, 99, 116, 105, 111, 110],
        seq![116u8, 101],
        seq![116u8, 114, 97, 110, 115, 102, 101, 114, 45, 101, 110, 99, 111, 100, 105, 110, 103],
        seq![117u8, 112, 103, 114, 97, 100, 101],
        seq![104u8, 111, 115, 116],
        seq![104u8, 116, 116, 112, 50, 45, 115, 101, 116, 116, 105, 110, 103, 115],
    ]
}

/// The names forbidden by default: `connection`, `keep-alive`,
/// `proxy-authenticate`, `proxy-authorization`, `proxy-connection`, `te`,
/// `transfer-encoding`, `upgrade`, `host` and `http2-settings`.
pub fn default_forbidden_header_names() -> (r: Vec<Vec<u8>>)
    ensures
        r@.map_values(|v: Vec<u8>| v@) == default_forbidden_headers(),
{
    let r: Vec<Vec<u8>> = vec![
        vec![99u8, 111, 110, 110, 101, 99, 116, 105, 111, 110],
        vec![107u8, 101, 101, 112, 45, 97, 108, 105, 118, 101],
        vec![112u8, 114, 111, 120, 121, 45, 97, 117, 116, 104, 101, 110, 116, 105, 99, 97, 116, 101],
        vec![112u8, 114, 111, 120, 121, 45, 97, 117, 116, 104, 111, 114, 105, 122, 97, 116, 105, 111, 110],
        vec![112u8, 114, 111, 120, 121, 45, 99, 111, 110, 110, 101, 99, 116, 105, 111, 110],
        vec![116u8, 101],
        vec![116u8, 114, 97, 110, 115, 102, 101, 114, 45, 101, 110, 99, 111, 100, 105, 110, 103],
        vec![117u8, 112, 103, 114, 97, 100, 101],
        vec![104u8, 111, 115, 116],
        vec![104u8, 116, 116, 112, 50, 45, 115, 101, 116, 116, 105, 110, 103, 115],
    ];
    proof {
        assert(r@.map_values(|v: Vec<u8>| v@) =~= default_forbidden_headers());
    }
    r
}

/// Whether `name` is one of the names forbidden by default.
pub fn is_default_forbidden(name: &[u8]) -> (r: bool)
    ensures
        r == default_forbidden_headers().contains(name@),
{
    let list = default_forbidden_header_names();
    let ghost lv = list@.map_values(|v: Vec<u8>| v@);
    let mut i: usize = 0;
    while i < list.len()
        invariant
            i <= list@.len(),
            lv == list@.map_values(|v: Vec<u8>| v@),
            lv == default_forbidden_headers(),
            forall|k: int| 0 <= k < i ==> lv[k] != name@,
        decreases list.len() - i,
    {
        if bytes_eq(name, list[i].as_slice()) {
            proof {
                assert(lv[i as int] == name@);
            }
            return true;
        }
        i = i + 1;
    }
    false
}

/// The context of the `wasi:http` implementation: the HTTP client, and the
/// default policy on forbidden headers.
pub struct WasiHttpCtx<C> {
    /// HTTP client.
    pub client: C,
}

impl<C> WasiHttpView for WasiHttpCtx<C> {
    open spec fn forbids(&self, name: Seq<u8>) -> bool {
        default_forbidden_headers().contains(name)
    }

    fn is_forbidden_header(&self, name: &[u8]) -> (r: bool) {
        is_default_forbidden(name)
    }
}

/// A wrapper through which the `wasi:http` host traits are implemented for
/// an embedder's state.
pub struct WasiHttpImpl<T>(pub T);

impl<T: WasiHttpView> WasiHttpView for WasiHttpImpl<T> {
    open spec fn forbids(&self, name: Seq<u8>) -> bool {
        self.0.forbids(name)
    }

    fn is_forbidden_header(&self, name: &[u8]) -> (r: bool) {
        self.0.is_forbidden_header(name)
    }
}

/// The contents built from a list of guest-given entries, processed in
/// order; the first invalid entry decides the error.
pub open spec fn from_list_spec<V: WasiHttpView>(view: &V, e: Seq<(Seq<u8>, Seq<u8>)>) -> Result<
    Map<Seq<u8>, Seq<Seq<u8>>>,
    HeaderError,
>
    decreases e.len(),
{
    if e.len() == 0 {
        Ok(Map::empty())
    } else {
        match from_list_spec(view, e.drop_last()) {
            Err(err) => Err(err),
            Ok(c) => match parse_field_name(e.last().0) {
                None => Err(HeaderError::InvalidSyntax),
                Some(name) => if view.forbids(name) {
                    Err(HeaderError::Forbidden)
                } else {
                    match parse_header_value_spec(name, e.last().1) {
                        Err(err) => Err(err),
                        Ok(v) => Ok(appended(c, name, v)),
                    }
                },
            },
        }
    }
}

/// Whether building fields from the entries `e` may stop at entry `i`
/// because the map refuses to grow: the entries before it were accepted
/// into at least `MAX_FIELD_NAMES` names, and entry `i` passes every check.
pub open spec fn full_at<V: WasiHttpView>(view: &V, e: Seq<(Seq<u8>, Seq<u8>)>, i: int) -> bool {
    &&& from_list_spec(view, e.take(i)) matches Ok(c) && !below_limit(c)
    &&& from_list_spec(view, e.take(i + 1)) is Ok
}

/// Builds the fields from a list of (name, value) entries given by a guest.
/// Each name must be valid and not forbidden, and each value valid for its
/// name; the values of a name keep the order of the list. The outer error
/// is a trap: the map refused to grow past its capacity limit, which it
/// never does for fewer than `MAX_FIELD_NAMES` entries.
pub fn fields_from_list<V: WasiHttpView>(view: &V, entries: &Vec<(Vec<u8>, Vec<u8>)>) -> (r:
    Result<Result<http::HeaderMap, HeaderError>, FieldsFull>)
    ensures
        r matches Ok(x) ==> match from_list_spec(view, pairs_view(entries@)) {
            Ok(c) => x matches Ok(m) && header_map_contents(m) == c,
            Err(e) => x == Err::<http::HeaderMap, HeaderError>(e),
        },
        r is Err ==> exists|i: int|
            0 <= i < entries@.len() && #[trigger] full_at(view, pairs_view(entries@), i),
        entries@.len() <= MAX_FIELD_NAMES ==> r is Ok,
{
    let ghost ev = pairs_view(entries@);
    let mut fields = map_new();
    let mut i: usize = 0;
    while i < entries.len()
        invariant
            i <= entries@.len(),
            ev == pairs_view(entries@),
            from_list_spec(view, ev.take(i as int)) == Ok::<
                Map<Seq<u8>, Seq<Seq<u8>>>,
                HeaderError,
            >(header_map_contents(fields)),
            header_map_contents(fields).dom().finite(),
            header_map_contents(fields).dom().len() <= i,
        decreases entries@.len() - i,
    {
        let pair = &entries[i];
        proof {
            assert(ev.take(i + 1).drop_last() =~= ev.take(i as int));
            assert(ev.take(i + 1).last() == ev[i as int]);
            assert(ev[i as int] == (pair.0@, pair.1@));
        }
        let name = match parse_header_name(pair.0.as_slice()) {
            Some(n) => n,
            None => {
                proof {
                    lemma_from_list_error_sticks(view, ev, i as int + 1);
                    assert(ev.take(ev.len() as int) =~= ev);
                }
                return Ok(Err(HeaderError::InvalidSyntax));
            },
        };
        proof {
            lemma_parse_field_name_idempotent(pair.0@);
        }
        if view.is_forbidden_header(name.as_slice()) {
            proof {
                lemma_from_list_error_sticks(view, ev, i as int + 1);
                assert(ev.take(ev.len() as int) =~= ev);
            }
            return Ok(Err(HeaderError::Forbidden));
        }
        let value = match parse_header_value(name.as_slice(), pair.1.as_slice()) {
            Ok(v) => v,
            Err(e) => {
                proof {
                    lemma_from_list_error_sticks(view, ev, i as int + 1);
                    assert(ev.take(ev.len() as int) =~= ev);
                }
                return Ok(Err(e));
            },
        };
        proof {
            lemma_stored_value_valid(name@, pair.1@);
        }
        let ghost before = header_map_contents(fields);
        match map_append(&mut fields, name.as_slice(), value.as_slice()) {
            Ok(()) => {},
            Err(full) => {
                proof {
                    assert(full_at(view, ev, i as int));
                }
                return Err(full);
            },
        }
        proof {
            assert(header_map_contents(fields).dom() =~= before.dom().insert(name@));
        }
        i = i + 1;
    }
    proof {
        assert(ev.take(ev.len() as int) =~= ev);
    }
    Ok(Ok(fields))
}

/// Once an entry is refused, so is every longer list that starts with it.
proof fn lemma_from_list_error_sticks<V: WasiHttpView>(
    view: &V,
    e: Seq<(Seq<u8>, Seq<u8>)>,
    i: int,
)
    requires
        0 <= i <= e.len(),
        from_list_spec(view, e.take(i)) is Err,
    ensures
        from_list_spec(view, e) == from_list_spec(view, e.take(i)),
    decreases e.len() - i,
{
    if i < e.len() {
        assert(e.take(i + 1).drop_last() =~= e.take(i));
        lemma_from_list_error_sticks(view, e, i + 1);
    } else {
        assert(e.take(i) =~= e);
    }
}

/// A normalized name is its own normal form.
pub proof fn lemma_parse_field_name_idempotent(s: Seq<u8>)
    requires
        parse_field_name(s) is Some,
    ensures
        parse_field_name(parse_field_name(s)->0) == parse_field_name(s),
{
    let n = parse_field_name(s)->0;
    assert forall|i: int| 0 <= i < n.len() implies is_tchar(#[trigger] n[i]) by {
        assert(is_tchar(s[i]));
    }
    assert(Seq::new(n.len(), |i: int| lower_byte(n[i])) =~= n);
}

/// What `parse_header_value` stores is a valid header value.
proof fn lemma_stored_value_valid(name: Seq<u8>, value: Seq<u8>)
    requires
        parse_header_value_spec(name, value) is Ok,
    ensures
        field_value_valid(parse_header_value_spec(name, value)->Ok_0),
{
    if name == content_length_name() {
        lemma_decimal_bytes_valid(parse_u64_spec(value)->0 as nat);
    }
}

proof fn lemma_decimal_bytes_valid(v: nat)
    ensures
        field_value_valid(decimal_bytes(v)),
        forall|i: int| 0 <= i < decimal_bytes(v).len() ==> is_digit(#[trigger] decimal_bytes(v)[i]),
    decreases v,
{
    if v >= 10 {
        lemma_decimal_bytes_valid(v / 10);
    }
}

/// The values stored for a list of guest-given values of one header, in
/// order; the first invalid value decides the error.
pub open spec fn parsed_values(name: Seq<u8>, vals: Seq<Seq<u8>>) -> Result<
    Seq<Seq<u8>>,
    HeaderError,
>
    decreases vals.len(),
{
    if vals.len() == 0 {
        Ok(Seq::empty())
    } else {
        match parsed_values(name, vals.drop_last()) {
            Err(e) => Err(e),
            Ok(p) => match parse_header_value_spec(name, vals.last()) {
                Ok(v) => Ok(p.push(v)),
                Err(e) => Err(e),
            },
        }
    }
}

/// A list of byte vectors, as byte sequences.
pub open spec fn vals_view(v: Seq<Vec<u8>>) -> Seq<Seq<u8>> {
    v.map_values(|x: Vec<u8>| x@)
}

/// The name checks that every modifying operation makes first: the name
/// must be valid, then not forbidden.
pub open spec fn checked_name<V: WasiHttpView>(view: &V, raw: Seq<u8>) -> Result<
    Seq<u8>,
    HeaderError,
> {
    match parse_field_name(raw) {
        None => Err(HeaderError::InvalidSyntax),
        Some(n) => if view.forbids(n) {
            Err(HeaderError::Forbidden)
        } else {
            Ok(n)
        },
    }
}

/// The contents after `set`: all values of the name replaced by the given
/// ones (the name removed if there are none), or the error.
pub open spec fn set_spec<V: WasiHttpView>(
    view: &V,
    c: Map<Seq<u8>, Seq<Seq<u8>>>,
    mutable: bool,
    raw: Seq<u8>,
    vals: Seq<Seq<u8>>,
) -> Result<Map<Seq<u8>, Seq<Seq<u8>>>, HeaderError> {
    match checked_name(view, raw) {
        Err(e) => Err(e),
        Ok(n) => match parsed_values(n, vals) {
            Err(e) => Err(e),
            Ok(p) => if !mutable {
                Err(HeaderError::Immutable)
            } else if p.len() == 0 {
                Ok(c.remove(n))
            } else {
                Ok(c.insert(n, p))
            },
        },
    }
}

/// Validates a name and checks that it is not forbidden; returns its
/// normalized form.
fn check_name<V: WasiHttpView>(view: &V, raw: &[u8]) -> (r: Result<Vec<u8>, HeaderError>)
    ensures
        match checked_name(view, raw@) {
            Ok(n) => r is Ok && r->Ok_0@ == n && parse_field_name(n) == Some(n),
            Err(e) => r matches Err(x) && x == e,
        },
{
    let name = match parse_header_name(raw) {
        Some(n) => n,
        None => return Err(HeaderError::InvalidSyntax),
    };
    proof {
        lemma_parse_field_name_idempotent(raw@);
    }
    if view.is_forbidden_header(name.as_slice()) {
        return Err(HeaderError::Forbidden);
    }
    Ok(name)
}

/// The contents while `set` stores the values `p` of the name `n`: the
/// name's old values removed and the first `k` new ones appended.
pub open spec fn partially_set(
    c: Map<Seq<u8>, Seq<Seq<u8>>>,
    n: Seq<u8>,
    p: Seq<Seq<u8>>,
    k: int,
) -> Map<Seq<u8>, Seq<Seq<u8>>> {
    if k == 0 {
        c.remove(n)
    } else {
        c.remove(n).insert(n, p.take(k))
    }
}

/// Whether a map with these contents holds fewer than `MAX_FIELD_NAMES`
/// names even after one more.
pub open spec fn room_for_one_more(c: Map<Seq<u8>, Seq<Seq<u8>>>) -> bool {
    c.dom().finite() && c.dom().len() + 1 < MAX_FIELD_NAMES
}

/// Replaces all values of a header by the given ones (removing the header
/// if none are given). `mutable` is false for fields that are a read-only
/// child of a request or response. Nothing changes on a refusal. The outer
/// error is a trap: the map refused to grow while the values were stored,
/// leaving the old values removed and some of the new ones appended; it
/// never does so while it holds one name fewer than `MAX_FIELD_NAMES`.
pub fn fields_set<V: WasiHttpView>(
    view: &V,
    fields: &mut http::HeaderMap,
    mutable: bool,
    name: &[u8],
    values: &Vec<Vec<u8>>,
) -> (r: Result<Result<(), HeaderError>, FieldsFull>)
    ensures
        match set_spec(
            view,
            header_map_contents(*old(fields)),
            mutable,
            name@,
            vals_view(values@),
        ) {
            Ok(c) => r == Ok::<Result<(), HeaderError>, FieldsFull>(Ok(()))
                && header_map_contents(*final(fields)) == c || r is Err && exists|k: int|
                0 <= k < values@.len() && header_map_contents(*final(fields))
                    == #[trigger] partially_set(
                    header_map_contents(*old(fields)),
                    parse_field_name(name@)->0,
                    parsed_values(parse_field_name(name@)->0, vals_view(values@))->Ok_0,
                    k,
                ) && !below_limit(header_map_contents(*final(fields))),
            Err(e) => r == Ok::<Result<(), HeaderError>, FieldsFull>(Err(e)) && header_map_contents(
                *final(fields),
            ) == header_map_contents(*old(fields)),
        },
        room_for_one_more(header_map_contents(*old(fields))) ==> r is Ok,
{
    let ghost c = header_map_contents(*fields);
    let ghost raw = name@;
    let ghost vv = vals_view(values@);
    let norm = match check_name(view, name) {
        Ok(n) => n,
        Err(e) => return Ok(Err(e)),
    };
    let mut parsed: Vec<Vec<u8>> = Vec::with_capacity(values.len());
    let mut i: usize = 0;
    proof {
        assert(vv.take(0) =~= Seq::<Seq<u8>>::empty());
        assert(parsed@.map_values(|v: Vec<u8>| v@) =~= Seq::<Seq<u8>>::empty());
    }
    while i < values.len()
        invariant
            i <= values@.len(),
            c == header_map_contents(*fields),
            c == header_map_contents(*old(fields)),
            checked_name(view, raw) == Ok::<Seq<u8>, HeaderError>(norm@),
            raw == name@,
            vv == vals_view(values@),
            parsed@.len() == i,
            parsed_values(norm@, vv.take(i as int)) == Ok::<Seq<Seq<u8>>, HeaderError>(
                parsed@.map_values(|v: Vec<u8>| v@),
            ),
            forall|k: int| 0 <= k < parsed@.len() ==> field_value_valid(#[trigger] parsed@[k]@),
        decreases values@.len() - i,
    {
        proof {
            assert(vv.take(i + 1).drop_last() =~= vv.take(i as int));
            assert(vv.take(i + 1).last() == values@[i as int]@);
        }
        match parse_header_value(norm.as_slice(), values[i].as_slice()) {
            Ok(v) => {
                proof {
                    lemma_stored_value_valid(norm@, values@[i as int]@);
                }
                parsed.push(v);
                proof {
                    assert(parsed@.map_values(|v: Vec<u8>| v@) =~= parsed_values(
                        norm@,
                        vv.take(i + 1),
                    )->Ok_0);
                }
            },
            Err(e) => {
                proof {
                    assert(parsed_values(norm@, vv.take(i + 1)) == Err::<Seq<Seq<u8>>, HeaderError>(e));
                    lemma_parsed_values_error_sticks(norm@, vv, i as int + 1);
                    assert(vv.take(vv.len() as int) =~= vv);
                }
                return Ok(Err(e));
            },
        }
        i = i + 1;
    }
    proof {
        assert(vv.take(vv.len() as int) =~= vv);
    }
    if !mutable {
        return Ok(Err(HeaderError::Immutable));
    }
    map_remove(fields, norm.as_slice());
    proof {
        assert(c.remove(norm@).dom() =~= c.dom().remove(norm@));
        if c.dom().finite() {
            vstd::set_lib::lemma_len_subset(c.remove(norm@).dom(), c.dom());
        }
    }
    let ghost pv = parsed@.map_values(|v: Vec<u8>| v@);
    let mut k: usize = 0;
    while k < parsed.len()
        invariant
            k <= parsed@.len(),
            parsed@.len() == values@.len(),
            pv == parsed@.map_values(|v: Vec<u8>| v@),
            pv == parsed_values(norm@, vv)->Ok_0,
            parsed_values(norm@, vv) is Ok,
            checked_name(view, raw) == Ok::<Seq<u8>, HeaderError>(norm@),
            mutable,
            vv == vals_view(values@),
            parse_field_name(norm@) == Some(norm@),
            parse_field_name(raw) == Some(norm@),
            raw == name@,
            c == header_map_contents(*old(fields)),
            forall|j: int| 0 <= j < parsed@.len() ==> field_value_valid(#[trigger] parsed@[j]@),
            header_map_contents(*fields) == partially_set(c, norm@, pv, k as int),
            room_for_one_more(c) ==> below_limit(header_map_contents(*fields)),
        decreases parsed@.len() - k,
    {
        proof {
            assert(parsed@[k as int]@ == pv[k as int]);
        }
        match map_append(fields, norm.as_slice(), parsed[k].as_slice()) {
            Ok(()) => {},
            Err(full) => {
                proof {
                    assert(parse_field_name(name@)->0 == norm@);
                    assert(parsed_values(parse_field_name(name@)->0, vals_view(values@))->Ok_0 == pv);
                    assert(header_map_contents(*fields) == partially_set(
                        header_map_contents(*old(fields)),
                        parse_field_name(name@)->0,
                        parsed_values(parse_field_name(name@)->0, vals_view(values@))->Ok_0,
                        k as int,
                    ));
                    assert(!below_limit(header_map_contents(*fields)));
                    assert(0 <= k < values@.len());
                    assert(set_spec(view, c, mutable, name@, vals_view(values@)) is Ok);
                }
                return Err(full);
            },
        }
        proof {
            assert(pv.take(k + 1) =~= (if k == 0 {
                Seq::empty()
            } else {
                pv.take(k as int)
            }).push(pv[k as int]));
            assert(header_map_contents(*fields) =~= partially_set(c, norm@, pv, k + 1));
            if room_for_one_more(c) {
                let cur = header_map_contents(*fields);
                assert(cur.dom() =~= c.remove(norm@).dom().insert(norm@));
                assert(c.remove(norm@).dom().subset_of(c.dom()));
                vstd::set_lib::lemma_len_subset(c.remove(norm@).dom(), c.dom());
            }
        }
        k = k + 1;
    }
    proof {
        assert(pv.take(pv.len() as int) =~= pv);
        if pv.len() > 0 {
            assert(partially_set(c, norm@, pv, pv.len() as int) =~= c.insert(norm@, pv));
        }
    }
    Ok(Ok(()))
}

proof fn lemma_parsed_values_error_sticks(name: Seq<u8>, v: Seq<Seq<u8>>, i: int)
    requires
        0 <= i <= v.len(),
        parsed_values(name, v.take(i)) is Err,
    ensures
        parsed_values(name, v) == parsed_values(name, v.take(i)),
    decreases v.len() - i,
{
    if i < v.len() {
        assert(v.take(i + 1).drop_last() =~= v.take(i));
        lemma_parsed_values_error_sticks(name, v, i + 1);
    } else {
        assert(v.take(i) =~= v);
    }
}

/// The contents after `delete`, or the error.
pub open spec fn delete_spec<V: WasiHttpView>(
    view: &V,
    c: Map<Seq<u8>, Seq<Seq<u8>>>,
    mutable: bool,
    raw: Seq<u8>,
) -> Result<Map<Seq<u8>, Seq<Seq<u8>>>, HeaderError> {
    match checked_name(view, raw) {
        Err(e) => Err(e),
        Ok(n) => if !mutable {
            Err(HeaderError::Immutable)
        } else {
            Ok(c.remove(n))
        },
    }
}

/// Removes all values of a header. Nothing changes on error.
pub fn fields_delete<V: WasiHttpView>(
    view: &V,
    fields: &mut http::HeaderMap,
    mutable: bool,
    name: &[u8],
) -> (r: Result<(), HeaderError>)
    ensures
        match delete_spec(view, header_map_contents(*old(fields)), mutable, name@) {
            Ok(c) => r is Ok && header_map_contents(*final(fields)) == c,
            Err(e) => r == Err::<(), HeaderError>(e) && header_map_contents(*final(fields))
                == header_map_contents(*old(fields)),
        },
{
    let norm = match check_name(view, name) {
        Ok(n) => n,
        Err(e) => return Err(e),
    };
    if !mutable {
        return Err(HeaderError::Immutable);
    }
    map_remove(fields, norm.as_slice());
    Ok(())
}

/// Removes all values of a header and returns them, in order. Nothing
/// changes on error.
pub fn fields_get_and_delete<V: WasiHttpView>(
    view: &V,
    fields: &mut http::HeaderMap,
    mutable: bool,
    name: &[u8],
) -> (r: Result<Vec<Vec<u8>>, HeaderError>)
    ensures
        match delete_spec(view, header_map_contents(*old(fields)), mutable, name@) {
            Ok(c) => r is Ok && header_map_contents(*final(fields)) == c && vals_view(r->Ok_0@)
                == values_of(header_map_contents(*old(fields)), parse_field_name(name@)->0),
            Err(e) => r matches Err(x) && x == e && header_map_contents(*final(fields))
                == header_map_contents(*old(fields)),
        },
{
    let norm = match check_name(view, name) {
        Ok(n) => n,
        Err(e) => return Err(e),
    };
    if !mutable {
        return Err(HeaderError::Immutable);
    }
    let values = map_get_all(fields, norm.as_slice());
    map_remove(fields, norm.as_slice());
    Ok(values)
}

/// The contents after `append`, or the error.
pub open spec fn append_spec<V: WasiHttpView>(
    view: &V,
    c: Map<Seq<u8>, Seq<Seq<u8>>>,
    mutable: bool,
    raw: Seq<u8>,
    value: Seq<u8>,
) -> Result<Map<Seq<u8>, Seq<Seq<u8>>>, HeaderError> {
    match checked_name(view, raw) {
        Err(e) => Err(e),
        Ok(n) => match parse_header_value_spec(n, value) {
            Err(e) => Err(e),
            Ok(v) => if !mutable {
                Err(HeaderError::Immutable)
            } else {
                Ok(appended(c, n, v))
            },
        },
    }
}

/// Adds a value after the values already held for a header. Nothing
/// changes on a refusal. The outer error is a trap: the map refused to grow,
/// which it never does below `MAX_FIELD_NAMES` names; nothing changes then
/// either.
pub fn fields_append<V: WasiHttpView>(
    view: &V,
    fields: &mut http::HeaderMap,
    mutable: bool,
    name: &[u8],
    value: &[u8],
) -> (r: Result<Result<(), HeaderError>, FieldsFull>)
    ensures
        match append_spec(view, header_map_contents(*old(fields)), mutable, name@, value@) {
            Ok(c) => r == Ok::<Result<(), HeaderError>, FieldsFull>(Ok(()))
                && header_map_contents(*final(fields)) == c || r is Err && header_map_contents(
                *final(fields),
            ) == header_map_contents(*old(fields)) && !below_limit(
                header_map_contents(*old(fields)),
            ),
            Err(e) => r == Ok::<Result<(), HeaderError>, FieldsFull>(Err(e)) && header_map_contents(
                *final(fields),
            ) == header_map_contents(*old(fields)),
        },
        below_limit(header_map_contents(*old(fields))) ==> r is Ok,
{
    let norm = match check_name(view, name) {
        Ok(n) => n,
        Err(e) => return Ok(Err(e)),
    };
    let stored = match parse_header_value(norm.as_slice(), value) {
        Ok(v) => v,
        Err(e) => return Ok(Err(e)),
    };
    proof {
        lemma_stored_value_valid(norm@, value@);
    }
    if !mutable {
        return Ok(Err(HeaderError::Immutable));
    }
    match map_append(fields, norm.as_slice(), stored.as_slice()) {
        Ok(()) => Ok(Ok(())),
        Err(full) => Err(full),
    }
}

/// The values of a header, in order; none if the name is not valid.
pub fn fields_get(fields: &http::HeaderMap, name: &[u8]) -> (r: Vec<Vec<u8>>)
    ensures
        vals_view(r@) == match parse_field_name(name@) {
            Some(n) => values_of(header_map_contents(*fields), n),
            None => Seq::empty(),
        },
{
    match parse_header_name(name) {
        Some(n) => {
            proof {
                lemma_parse_field_name_idempotent(name@);
            }
            map_get_all(fields, n.as_slice())
        },
        None => {
            let r: Vec<Vec<u8>> = Vec::new();
            proof {
                assert(vals_view(r@) =~= Seq::<Seq<u8>>::empty());
            }
            r
        },
    }
}

/// Whether a header has any value; false if the name is not valid.
pub fn fields_has(fields: &http::HeaderMap, name: &[u8]) -> (r: bool)
    ensures
        r == match parse_field_name(name@) {
            Some(n) => header_map_contents(*fields).contains_key(n),
            None => false,
        },
{
    match parse_header_name(name) {
        Some(n) => {
            proof {
                lemma_parse_field_name_idempotent(name@);
            }
            map_contains_key(fields, n.as_slice())
        },
        None => false,
    }
}

/// Every (name, value) pair of the fields; for each name its values come in
/// order.
pub fn fields_entries(fields: &http::HeaderMap) -> (r: Vec<(Vec<u8>, Vec<u8>)>)
    ensures
        forall|name: Seq<u8>|
            entries_named(pairs_view(r@), name) == values_of(header_map_contents(*fields), name),
{
    map_entries(fields)
}

/// Why a `Content-Length` header was refused.
#[derive(Clone, Copy, Debug, PartialEq, Eq, Structural)]
pub struct InvalidContentLength;

/// The `Content-Length` of some fields: its first value read as a `u64`, or
/// none if the header is absent.
pub open spec fn content_length_spec(c: Map<Seq<u8>, Seq<Seq<u8>>>) -> Result<
    Option<u64>,
    InvalidContentLength,
> {
    let vals = values_of(c, content_length_name());
    if vals.len() == 0 {
        Ok(None)
    } else {
        match parse_u64_spec(vals[0]) {
            Some(v) => Ok(Some(v)),
            None => Err(InvalidContentLength),
        }
    }
}

/// Extracts the `Content-Length` from the fields: `None` if absent, an
/// error if its (first) value is not a decimal `u64`.
pub fn get_content_length(fields: &http::HeaderMap) -> (r: Result<Option<u64>, InvalidContentLength>)
    ensures
        r == content_length_spec(header_map_contents(*fields)),
{
    let cl: Vec<u8> = vec![99u8, 111, 110, 116, 101, 110, 116, 45, 108, 101, 110, 103, 116, 104];
    proof {
        assert(cl@ =~= content_length_name());
        assert(parse_field_name(cl@) =~= Some(cl@)) by {
            assert(Seq::new(cl@.len(), |i: int| lower_byte(cl@[i])) =~= cl@);
        }
    }
    let vals = map_get_all(fields, cl.as_slice());
    if vals.len() == 0 {
        return Ok(None);
    }
    proof {
        assert(vals@[0]@ == vals_view(vals@)[0]);
    }
    match parse_u64(vals[0].as_slice()) {
        Some(v) => Ok(Some(v)),
        None => Err(InvalidContentLength),
    }
}

/// Setting a header and then reading it gives back the stored values in
/// the order given; deleting it leaves no values.
pub proof fn lemma_set_then_get<V: WasiHttpView>(
    view: &V,
    c: Map<Seq<u8>, Seq<Seq<u8>>>,
    raw: Seq<u8>,
    vals: Seq<Seq<u8>>,
)
    requires
        set_spec(view, c, true, raw, vals) is Ok,
    ensures
        values_of(set_spec(view, c, true, raw, vals)->Ok_0, parse_field_name(raw)->0)
            == parsed_values(parse_field_name(raw)->0, vals)->Ok_0,
        delete_spec(view, c, true, raw) is Ok,
        values_of(delete_spec(view, c, true, raw)->Ok_0, parse_field_name(raw)->0)
            == Seq::<Seq<u8>>::empty(),
{
}

/// Appending a value and then reading the header gives the earlier values
/// followed by the stored value.
pub proof fn lemma_append_then_get<V: WasiHttpView>(
    view: &V,
    c: Map<Seq<u8>, Seq<Seq<u8>>>,
    raw: Seq<u8>,
    value: Seq<u8>,
)
    requires
        append_spec(view, c, true, raw, value) is Ok,
    ensures
        values_of(append_spec(view, c, true, raw, value)->Ok_0, parse_field_name(raw)->0)
            == values_of(c, parse_field_name(raw)->0).push(
            parse_header_value_spec(parse_field_name(raw)->0, value)->Ok_0,
        ),
{
}

/// Immutable fields refuse every change to a valid, allowed header.
pub proof fn lemma_immutable_refuses<V: WasiHttpView>(
    view: &V,
    c: Map<Seq<u8>, Seq<Seq<u8>>>,
    raw: Seq<u8>,
    value: Seq<u8>,
)
    requires
        checked_name(view, raw) is Ok,
        parse_header_value_spec(checked_name(view, raw)->Ok_0, value) is Ok,
    ensures
        append_spec(view, c, false, raw, value) == Err::<Map<Seq<u8>, Seq<Seq<u8>>>, HeaderError>(
            HeaderError::Immutable,
        ),
        delete_spec(view, c, false, raw) == Err::<Map<Seq<u8>, Seq<Seq<u8>>>, HeaderError>(
            HeaderError::Immutable,
        ),
        set_spec(view, c, false, raw, seq![value]) == Err::<Map<Seq<u8>, Seq<Seq<u8>>>, HeaderError>(
            HeaderError::Immutable,
        ),
{
    let n = checked_name(view, raw)->Ok_0;
    assert(seq![value].drop_last() =~= Seq::<Seq<u8>>::empty());
    assert(parsed_values(n, seq![value].drop_last()) == Ok::<Seq<Seq<u8>>, HeaderError>(
        Seq::empty(),
    ));
    assert(parsed_values(n, seq![value]) is Ok);
}

/// A `Content-Length` value given by a guest is stored in a form that reads
/// back as the same number.
pub proof fn lemma_content_length_roundtrip(value: Seq<u8>)
    requires
        parse_u64_spec(value) is Some,
    ensures
        parse_u64_spec(decimal_bytes(parse_u64_spec(value)->0 as nat)) == parse_u64_spec(value),
{
    let v = parse_u64_spec(value)->0 as nat;
    lemma_decimal_bytes_value(v);
    lemma_decimal_bytes_valid(v);
}

proof fn lemma_decimal_bytes_value(v: nat)
    ensures
        decimal_value(decimal_bytes(v)) == v,
        decimal_bytes(v).len() > 0,
        decimal_bytes(v)[0] != 43,
    decreases v,
{
    let d = decimal_bytes(v);
    if v >= 10 {
        lemma_decimal_bytes_value(v / 10);
        assert(d.drop_last() =~= decimal_bytes(v / 10));
        assert(d.last() == (v % 10 + 48) as u8);
        assert(d.last() - 48 == v % 10);
        assert(decimal_value(d) == decimal_value(d.drop_last()) * 10 + (d.last() - 48) as nat);
        assert((v / 10) * 10 + v % 10 == v);
    } else {
        assert(d.drop_last() =~= Seq::<u8>::empty());
        assert(d.last() - 48 == v);
        assert(decimal_value(d) == decimal_value(d.drop_last()) * 10 + (d.last() - 48) as nat);
    }
}

/// The name `host`.
pub open spec fn host_name() -> Seq<u8> {
    seq![104u8, 111, 115, 116]
}

/// The authority of an outgoing request is not a valid `host` header value.
#[derive(Clone, Copy, Debug, PartialEq, Eq, Structural)]
pub struct InvalidHostHeader;

/// The value of the `host` header of an outgoing request: its authority, or
/// empty without one.
pub open spec fn host_header_bytes(authority: Option<&str>) -> Seq<u8> {
    match authority {
        Some(a) => a.spec_bytes(),
        None => Seq::empty(),
    }
}

/// Sets the `host` header of an outgoing request to its authority (empty
/// without one), replacing the values it had. Refused, changing nothing,
/// when the authority is not a valid header value. The outer error is a
/// trap: the map refused to grow, which it never does below
/// `MAX_FIELD_NAMES` names; the old `host` values are then removed.
pub fn set_host_header(fields: &mut http::HeaderMap, authority: Option<&str>) -> (r: Result<
    Result<(), InvalidHostHeader>,
    FieldsFull,
>)
    ensures
        if field_value_valid(host_header_bytes(authority)) {
            r == Ok::<Result<(), InvalidHostHeader>, FieldsFull>(Ok(())) && header_map_contents(
                *final(fields),
            ) == header_map_contents(*old(fields)).insert(
                host_name(),
                seq![host_header_bytes(authority)],
            ) || r is Err && header_map_contents(*final(fields)) == header_map_contents(
                *old(fields),
            ).remove(host_name()) && !below_limit(header_map_contents(*final(fields)))
        } else {
            r == Ok::<Result<(), InvalidHostHeader>, FieldsFull>(Err(InvalidHostHeader))
                && header_map_contents(*final(fields)) == header_map_contents(*old(fields))
        },
        below_limit(header_map_contents(*old(fields))) ==> r is Ok,
{
    let value: Vec<u8> = match authority {
        Some(a) => copy_bytes(a.as_bytes()),
        None => Vec::new(),
    };
    proof {
        if authority is None {
            assert(value@ =~= Seq::<u8>::empty());
        }
    }
    if !header_value_valid(value.as_slice()) {
        return Ok(Err(InvalidHostHeader));
    }
    let host: Vec<u8> = vec![104u8, 111, 115, 116];
    proof {
        assert(host@ =~= host_name());
        assert(parse_field_name(host@) =~= Some(host@)) by {
            assert(Seq::new(host@.len(), |i: int| lower_byte(host@[i])) =~= host@);
        }
    }
    let ghost c = header_map_contents(*fields);
    map_remove(fields, host.as_slice());
    proof {
        assert(c.remove(host_name()).dom() =~= c.dom().remove(host_name()));
        if c.dom().finite() {
            vstd::set_lib::lemma_len_subset(c.remove(host_name()).dom(), c.dom());
        }
    }
    match map_append(fields, host.as_slice(), value.as_slice()) {
        Ok(()) => {},
        Err(full) => return Err(full),
    }
    proof {
        assert(values_of(c.remove(host_name()), host_name()) =~= Seq::<Seq<u8>>::empty());
        assert(header_map_contents(*fields) =~= c.insert(host_name(), seq![value@]));
    }
    Ok(Ok(()))
}

} // verus!
