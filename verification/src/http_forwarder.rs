//! HTTP forwarder: turns an invocation from the host into an HTTP request for the
//! user's web application, and the application's HTTP response back into an
//! invocation response.
use vstd::prelude::*;
use crate::config::{opt_view, AdapterConfig};
use crate::messages::{
    pairs_view, InvocationRequestModel, BindingModel, BodyData, BodyModel, InvocationRequest, InvocationResponse,
    InvocationResponseModel, ParameterBinding, RpcHttp, RpcHttpModel, StatusResult,
    StatusResultModel, TypedData, TypedModel, STATUS_FAILURE, STATUS_SUCCESS,
};
use crate::text::{
    chars_contain, chars_of, chars_start_with, contains_seq, decimal, lowercase,
    push_chars, push_char, push_decimal, push_str, starts_with, string_from, string_of,
    to_lowercase, to_uppercase, uppercase, from_utf8_lossy, utf8_lossy,
};

verus! {

// ---------------------------------------------------------------------------
// Content types
// ---------------------------------------------------------------------------

/// A lower-cased content type names a textual kind of content.
pub open spec fn is_text_marked(l: Seq<char>) -> bool {
    ||| contains_seq(l, "text/"@)
    ||| contains_seq(l, "application/json"@)
    ||| contains_seq(l, "application/xml"@)
    ||| contains_seq(l, "application/javascript"@)
    ||| contains_seq(l, "application/x-www-form-urlencoded"@)
    ||| contains_seq(l, "+json"@)
    ||| contains_seq(l, "+xml"@)
}

/// A lower-cased content type names a binary kind of content.
pub open spec fn is_binary_marked(l: Seq<char>) -> bool {
    ||| contains_seq(l, "application/octet-stream"@)
    ||| contains_seq(l, "image/"@)
    ||| contains_seq(l, "audio/"@)
    ||| contains_seq(l, "video/"@)
    ||| contains_seq(l, "application/pdf"@)
    ||| contains_seq(l, "application/zip"@)
    ||| contains_seq(l, "application/gzip"@)
}

/// A lower-cased content type is treated as binary: it names no textual kind and some
/// binary kind. Unknown kinds are textual.
pub open spec fn binary_content(l: Seq<char>) -> bool {
    !is_text_marked(l) && is_binary_marked(l)
}

/// Whether `hay` contains the text `needle`.
fn contains_str(hay: &Vec<char>, needle: &str) -> (r: bool)
    ensures
        r == contains_seq(hay@, needle@),
{
    chars_contain(hay, &chars_of(needle))
}

/// Heuristic on a content type that is already lower-cased.
pub fn is_binary_lowercase_content_type(lower: &str) -> (r: bool)
    ensures
        r == binary_content(lower@),
{
    let l = chars_of(lower);
    if contains_str(&l, "text/") || contains_str(&l, "application/json") || contains_str(
        &l,
        "application/xml",
    ) || contains_str(&l, "application/javascript") || contains_str(
        &l,
        "application/x-www-form-urlencoded",
    ) || contains_str(&l, "+json") || contains_str(&l, "+xml") {
        return false;
    }
    contains_str(&l, "application/octet-stream") || contains_str(&l, "image/") || contains_str(
        &l,
        "audio/",
    ) || contains_str(&l, "video/") || contains_str(&l, "application/pdf") || contains_str(
        &l,
        "application/zip",
    ) || contains_str(&l, "application/gzip")
}

/// Heuristic to determine if a content type represents binary data; case is ignored.
pub fn is_binary_content_type(ct: &str) -> (r: bool)
    ensures
        r == binary_content(lowercase(ct@)),
{
    let lower = to_lowercase(ct);
    is_binary_lowercase_content_type(lower.as_str())
}

// ---------------------------------------------------------------------------
// Headers that are not passed on
// ---------------------------------------------------------------------------

/// A lower-cased header name that is not forwarded (the host header is replaced, and
/// the others concern one connection only).
pub open spec fn is_hop_by_hop(lower: Seq<char>) -> bool {
    ||| lower == "host"@
    ||| lower == "transfer-encoding"@
    ||| lower == "connection"@
    ||| lower == "keep-alive"@
}

/// Whether the header `name` is dropped when a request is passed on; case is ignored.
pub fn is_hop_by_hop_header(name: &str) -> (r: bool)
    ensures
        r == is_hop_by_hop(lowercase(name@)),
{
    let lower = to_lowercase(name);
    is_hop_by_hop_lowercase(lower.as_str())
}

/// Whether a header name already in lower case is one that is not passed on.
pub fn is_hop_by_hop_lowercase(lower: &str) -> (r: bool)
    ensures
        r == is_hop_by_hop(lower@),
{
    crate::text::str_eq(lower, "host") || crate::text::str_eq(lower, "transfer-encoding")
        || crate::text::str_eq(lower, "connection") || crate::text::str_eq(lower, "keep-alive")
}

/// The headers that are passed on, in order.
pub open spec fn forwarded_headers(hs: Seq<(Seq<char>, Seq<char>)>) -> Seq<(Seq<char>, Seq<char>)>
    decreases hs.len(),
{
    if hs.len() == 0 {
        Seq::empty()
    } else {
        let before = forwarded_headers(hs.drop_last());
        if is_hop_by_hop(lowercase(hs.last().0)) {
            before
        } else {
            before.push(hs.last())
        }
    }
}

/// The nullable headers that are passed on: those with a value, in order.
pub open spec fn forwarded_nullable_headers(hs: Seq<(Seq<char>, Option<Seq<char>>)>) -> Seq<
    (Seq<char>, Seq<char>),
>
    decreases hs.len(),
{
    if hs.len() == 0 {
        Seq::empty()
    } else {
        let before = forwarded_nullable_headers(hs.drop_last());
        match hs.last().1 {
            Some(v) => if is_hop_by_hop(lowercase(hs.last().0)) {
                before
            } else {
                before.push((hs.last().0, v))
            },
            None => before,
        }
    }
}


// ---------------------------------------------------------------------------
// Calls into the HTTP crate
// ---------------------------------------------------------------------------

/// What parsing `url` as a `hyper::Uri` gives: its path and query, or the text of the
/// parse error.
pub uninterp spec fn uri_parts(url: Seq<char>) -> Result<(Seq<char>, Option<Seq<char>>), Seq<char>>;

/// Parses `url` with `hyper::Uri`'s `FromStr` and takes `Uri::path` and `Uri::query`;
/// on failure, the `Display` text of the `InvalidUri` error. The result is named by
/// `uri_parts`; nothing more of it is stated.
#[verifier::external_body]
fn parse_uri(url: &str) -> (r: Result<(String, Option<String>), String>)
    ensures
        match r {
            Ok((p, q)) => uri_parts(url@) == Ok::<(Seq<char>, Option<Seq<char>>), Seq<char>>(
                (p@, opt_view(q)),
            ),
            Err(e) => uri_parts(url@) == Err::<(Seq<char>, Option<Seq<char>>), Seq<char>>(e@),
        },
{
    match url.parse::<hyper::Uri>() {
        Ok(u) => Ok((u.path().to_string(), u.query().map(String::from))),
        Err(e) => Err(e.to_string()),
    }
}

/// The text of the error when a method name is refused.
pub const INVALID_METHOD_MESSAGE: &'static str = "invalid HTTP method";

/// A character allowed in an HTTP method name (an RFC 9110 token character).
pub open spec fn is_token_char(c: char) -> bool {
    ||| '0' <= c <= '9'
    ||| 'a' <= c <= 'z'
    ||| 'A' <= c <= 'Z'
    ||| c == '!' || c == '#' || c == '$' || c == '%' || c == '&' || c == '\''
    ||| c == '*' || c == '+' || c == '-' || c == '.' || c == '^' || c == '_'
    ||| c == '`' || c == '|' || c == '~'
}

/// A method name that `hyper::Method` accepts: at least one token character and
/// nothing else.
pub open spec fn is_http_method(m: Seq<char>) -> bool {
    m.len() > 0 && forall|i: int| 0 <= i < m.len() ==> is_token_char(#[trigger] m[i])
}

/// Parses `m` with `hyper::Method`'s `FromStr`, which accepts exactly the non-empty
/// strings of token characters and otherwise fails with the message "invalid HTTP
/// method".
#[verifier::external_body]
fn check_method(m: &str) -> (r: Result<(), String>)
    ensures
        r is Ok <==> is_http_method(m@),
        r matches Err(e) ==> e@ == INVALID_METHOD_MESSAGE@,
{
    match m.parse::<hyper::Method>() {
        Ok(_) => Ok(()),
        Err(e) => Err(e.to_string()),
    }
}

/// The text of the error when a header name is refused.
pub const INVALID_HEADER_NAME_MESSAGE: &'static str = "invalid HTTP header name";

/// The text of the error when a header value is refused.
pub const INVALID_HEADER_VALUE_MESSAGE: &'static str = "failed to parse header value";

/// A header name that `http::HeaderName` accepts: one to 65535 token characters.
pub open spec fn is_header_name(n: Seq<char>) -> bool {
    &&& 0 < n.len() <= 65535
    &&& forall|i: int| 0 <= i < n.len() ==> is_token_char(#[trigger] n[i])
}

/// A character that a header value may hold: a tab, or anything from the space on but
/// the delete character (the bytes of a non-ASCII character are all allowed).
pub open spec fn is_header_value_char(c: char) -> bool {
    c == '\t' || (' ' <= c && c != '\u{7f}')
}

/// A header value that `http::HeaderValue` accepts.
pub open spec fn is_header_value(v: Seq<char>) -> bool {
    forall|i: int| 0 <= i < v.len() ==> is_header_value_char(#[trigger] v[i])
}

/// `http::HeaderName::from_bytes` on the UTF-8 bytes of `name`: it accepts exactly the
/// names of one to 65535 token characters, and otherwise fails with the message
/// "invalid HTTP header name".
#[verifier::external_body]
fn check_header_name(name: &str) -> (r: Result<(), String>)
    ensures
        r is Ok <==> is_header_name(name@),
        r matches Err(e) ==> e@ == INVALID_HEADER_NAME_MESSAGE@,
{
    match hyper::header::HeaderName::from_bytes(name.as_bytes()) {
        Ok(_) => Ok(()),
        Err(e) => Err(e.to_string()),
    }
}

/// `http::HeaderValue::from_str`: it accepts exactly the texts none of whose bytes is a
/// control byte other than tab (below 32, or 127), and otherwise fails with the message
/// "failed to parse header value".
#[verifier::external_body]
fn check_header_value(value: &str) -> (r: Result<(), String>)
    ensures
        r is Ok <==> is_header_value(value@),
        r matches Err(e) ==> e@ == INVALID_HEADER_VALUE_MESSAGE@,
{
    match hyper::header::HeaderValue::from_str(value) {
        Ok(_) => Ok(()),
        Err(e) => Err(e.to_string()),
    }
}

// ---------------------------------------------------------------------------
// Building the request for the web application
// ---------------------------------------------------------------------------

/// The request to send to the web application.
#[derive(Debug)]
pub struct OutboundRequest {
    pub method: String,
    pub uri: String,
    pub headers: Vec<(String, String)>,
    pub body: Vec<u8>,
}

/// View of an [`OutboundRequest`].
pub struct OutboundModel {
    pub method: Seq<char>,
    pub uri: Seq<char>,
    pub headers: Seq<(Seq<char>, Seq<char>)>,
    pub body: Seq<u8>,
}

impl View for OutboundRequest {
    type V = OutboundModel;

    open spec fn view(&self) -> OutboundModel {
        OutboundModel {
            method: self.method@,
            uri: self.uri@,
            headers: pairs_view(self.headers@),
            body: self.body@,
        }
    }
}

/// The request path after the base path is removed: when `path` starts with the base,
/// the rest, with a `/` put in front if it does not start with one.
pub open spec fn strip_base(path: Seq<char>, base: Option<Seq<char>>) -> Seq<char> {
    match base {
        Some(b) => if starts_with(path, b) {
            let rest = path.skip(b.len() as int);
            if rest.len() > 0 && rest[0] == '/' {
                rest
            } else {
                seq!['/'] + rest
            }
        } else {
            path
        },
        None => path,
    }
}

/// A path under the base path reaches the web application without it: what follows the
/// base, with a `/` in front when it has none.
pub proof fn law_base_path_removed(base: Seq<char>, rest: Seq<char>)
    ensures
        strip_base(base + rest, Some(base)) == (if rest.len() > 0 && rest[0] == '/' {
            rest
        } else {
            seq!['/'] + rest
        }),
{
    assert((base + rest).take(base.len() as int) =~= base);
    assert((base + rest).skip(base.len() as int) =~= rest);
}

/// `?query`, or nothing.
pub open spec fn query_suffix(q: Option<Seq<char>>) -> Seq<char> {
    match q {
        Some(q) => seq!['?'] + q,
        None => Seq::empty(),
    }
}

/// The bytes of a request body: text in UTF-8, bytes as they are, nothing otherwise.
pub open spec fn body_bytes(b: Option<BodyModel>) -> Seq<u8> {
    match b {
        Some(BodyModel::String(s)) => vstd::utf8::encode_utf8(s),
        Some(BodyModel::Json(s)) => vstd::utf8::encode_utf8(s),
        Some(BodyModel::Bytes(v)) => v,
        Some(BodyModel::Stream(v)) => v,
        _ => Seq::empty(),
    }
}

/// The base URL of the web application at `host` and `port`.
pub open spec fn base_url(host: Seq<char>, port: u16) -> Seq<char> {
    "http://"@ + host + ":"@ + decimal(port as nat)
}

/// The request that an invocation's HTTP data `h` becomes once its URL is split into
/// `path` and `query` and its method is written `method`, for a web application at
/// `host` and `port` with the base path `base` removed; or the text of the error.
pub open spec fn outbound_from_parts(
    host: Seq<char>,
    port: u16,
    base: Option<Seq<char>>,
    path: Seq<char>,
    query: Option<Seq<char>>,
    method: Seq<char>,
    h: RpcHttpModel,
) -> Result<OutboundModel, Seq<char>> {
    let uri = base_url(host, port) + strip_base(path, base) + query_suffix(query);
    let headers = forwarded_headers(h.headers) + forwarded_nullable_headers(h.nullable_headers)
        + seq![("Host"@, host + ":"@ + decimal(port as nat))];
    if !is_http_method(method) {
        Err(INVALID_METHOD_MESSAGE@)
    } else if uri_parts(uri) is Err {
        Err(uri_parts(uri)->Err_0)
    } else {
        match header_error(headers) {
            Some(e) => Err(e),
            None => Ok(OutboundModel { method, uri, headers, body: body_bytes(h.body) }),
        }
    }
}

/// The error of the first header, in order, whose name or else value is refused; the
/// name is looked at before the value.
pub open spec fn header_error(hs: Seq<(Seq<char>, Seq<char>)>) -> Option<Seq<char>>
    decreases hs.len(),
{
    if hs.len() == 0 {
        None
    } else if !is_header_name(hs[0].0) {
        Some(INVALID_HEADER_NAME_MESSAGE@)
    } else if !is_header_value(hs[0].1) {
        Some(INVALID_HEADER_VALUE_MESSAGE@)
    } else {
        header_error(hs.drop_first())
    }
}

/// The error of the first refused header, if any.
fn find_header_error(hs: &Vec<(String, String)>) -> (r: Option<String>)
    ensures
        match r {
            Some(e) => header_error(pairs_view(hs@)) == Some(e@),
            None => header_error(pairs_view(hs@)) is None,
        },
{
    let ghost hv = pairs_view(hs@);
    let mut i: usize = 0;
    assert(hv.skip(0) =~= hv);
    while i < hs.len()
        invariant
            0 <= i <= hs.len(),
            hv == pairs_view(hs@),
            header_error(hv) == header_error(hv.skip(i as int)),
        decreases hs.len() - i,
    {
        let ghost rest = hv.skip(i as int);
        assert(rest[0] == (hs@[i as int].0@, hs@[i as int].1@));
        assert(rest.drop_first() =~= hv.skip(i + 1));
        match check_header_name(hs[i].0.as_str()) {
            Ok(()) => {},
            Err(e) => return Some(e),
        }
        match check_header_value(hs[i].1.as_str()) {
            Ok(()) => {},
            Err(e) => return Some(e),
        }
        i += 1;
    }
    assert(hv.skip(hs.len() as int) =~= Seq::<(Seq<char>, Seq<char>)>::empty());
    None
}

/// The request that an invocation's HTTP data `h` becomes, for a web application at
/// `host` and `port` with the base path `base` removed; or the text of the error.
pub open spec fn prepared_request(
    host: Seq<char>,
    port: u16,
    base: Option<Seq<char>>,
    h: RpcHttpModel,
) -> Result<OutboundModel, Seq<char>> {
    match uri_parts(h.url) {
        Err(e) => Err(e),
        Ok((path, query)) => outbound_from_parts(host, port, base, path, query, uppercase(h.method), h),
    }
}

/// Copies the bytes of a slice into a vector.
pub fn bytes_to_vec(b: &[u8]) -> (r: Vec<u8>)
    ensures
        r@ == b@,
{
    let mut r: Vec<u8> = Vec::new();
    let mut i: usize = 0;
    while i < b.len()
        invariant
            0 <= i <= b.len(),
            r@ == b@.take(i as int),
        decreases b.len() - i,
    {
        r.push(b[i]);
        i += 1;
        assert(r@ =~= b@.take(i as int));
    }
    assert(b@.take(b.len() as int) =~= b@);
    r
}

/// The path with the base path removed.
fn strip_base_path(path: &Vec<char>, base: &Option<String>) -> (r: Vec<char>)
    ensures
        r@ == strip_base(path@, opt_view(*base)),
{
    match base {
        Some(b) => {
            let bc = chars_of(b.as_str());
            if chars_start_with(path, &bc) {
                let rest = crate::text::sub_chars(path, bc.len(), path.len());
                assert(rest@ =~= path@.skip(bc@.len() as int));
                if rest.len() > 0 && rest[0] == '/' {
                    rest
                } else {
                    let mut out: Vec<char> = vec!['/'];
                    let mut k: usize = 0;
                    while k < rest.len()
                        invariant
                            0 <= k <= rest.len(),
                            out@ == seq!['/'] + rest@.take(k as int),
                        decreases rest.len() - k,
                    {
                        out.push(rest[k]);
                        k += 1;
                        assert(out@ =~= seq!['/'] + rest@.take(k as int));
                    }
                    assert(rest@.take(rest.len() as int) =~= rest@);
                    out
                }
            } else {
                sub_all(path)
            }
        },
        None => sub_all(path),
    }
}

/// A copy of a character vector.
fn sub_all(v: &Vec<char>) -> (r: Vec<char>)
    ensures
        r@ == v@,
{
    let r = crate::text::sub_chars(v, 0, v.len());
    assert(r@ =~= v@);
    r
}

/// The headers that are passed on.
fn forward_headers(hs: &Vec<(String, String)>, out: &mut Vec<(String, String)>)
    ensures
        pairs_view(final(out)@) == pairs_view(old(out)@) + forwarded_headers(pairs_view(hs@)),
{
    let ghost start = pairs_view(out@);
    let ghost hv = pairs_view(hs@);
    let mut i: usize = 0;
    assert(hv.take(0) =~= Seq::<(Seq<char>, Seq<char>)>::empty());
    assert(start + forwarded_headers(hv.take(0)) =~= start);
    while i < hs.len()
        invariant
            0 <= i <= hs.len(),
            hv == pairs_view(hs@),
            pairs_view(out@) == start + forwarded_headers(hv.take(i as int)),
        decreases hs.len() - i,
    {
        assert(hv.take(i + 1).drop_last() =~= hv.take(i as int));
        assert(hv.take(i + 1).last() == (hs@[i as int].0@, hs@[i as int].1@));
        let (k, v) = &hs[i];
        if !is_hop_by_hop_header(k.as_str()) {
            let ghost before = pairs_view(out@);
            out.push((k.clone(), v.clone()));
            assert(pairs_view(out@) =~= before.push((k@, v@)));
        }
        i += 1;
    }
    assert(hv.take(hs.len() as int) =~= hv);
}

/// The nullable headers that are passed on.
fn forward_nullable_headers(hs: &Vec<(String, Option<String>)>, out: &mut Vec<(String, String)>)
    ensures
        pairs_view(final(out)@) == pairs_view(old(out)@) + forwarded_nullable_headers(
            crate::messages::nullable_pairs_view(hs@),
        ),
{
    let ghost start = pairs_view(out@);
    let ghost hv = crate::messages::nullable_pairs_view(hs@);
    let mut i: usize = 0;
    assert(hv.take(0) =~= Seq::<(Seq<char>, Option<Seq<char>>)>::empty());
    assert(start + forwarded_nullable_headers(hv.take(0)) =~= start);
    while i < hs.len()
        invariant
            0 <= i <= hs.len(),
            hv == crate::messages::nullable_pairs_view(hs@),
            pairs_view(out@) == start + forwarded_nullable_headers(hv.take(i as int)),
        decreases hs.len() - i,
    {
        assert(hv.take(i + 1).drop_last() =~= hv.take(i as int));
        assert(hv.take(i + 1).last() == hv[i as int]);
        let (k, v) = &hs[i];
        match v {
            Some(v) => {
                if !is_hop_by_hop_header(k.as_str()) {
                    let ghost before = pairs_view(out@);
                    out.push((k.clone(), v.clone()));
                    assert(pairs_view(out@) =~= before.push((k@, v@)));
                }
            },
            None => {},
        }
        i += 1;
    }
    assert(hv.take(hs.len() as int) =~= hv);
}

/// The bytes of a request body.
pub fn extract_body(body: &Option<BodyData>) -> (r: Vec<u8>)
    ensures
        r@ == body_bytes(match body {
            Some(b) => Some(b@),
            None => None,
        }),
{
    match body {
        Some(BodyData::String(s)) => bytes_to_vec(s.as_str().as_bytes()),
        Some(BodyData::Json(s)) => bytes_to_vec(s.as_str().as_bytes()),
        Some(BodyData::Bytes(b)) => bytes_to_vec(b.as_slice()),
        Some(BodyData::Stream(b)) => bytes_to_vec(b.as_slice()),
        _ => Vec::new(),
    }
}

// ---------------------------------------------------------------------------
// Finding the HTTP data of an invocation
// ---------------------------------------------------------------------------

/// Why an invocation cannot be forwarded when it carries no HTTP data.
pub const NO_TRIGGER_MESSAGE: &'static str = "no HTTP trigger data found in invocation request";

/// The HTTP data a binding carries, if any.
pub open spec fn binding_http(b: BindingModel) -> Option<RpcHttpModel> {
    match b.data {
        Some(TypedModel::Http(h)) => Some(h),
        _ => None,
    }
}

/// The HTTP data of the first binding that carries some.
pub open spec fn first_binding_http(bs: Seq<BindingModel>) -> Option<RpcHttpModel>
    decreases bs.len(),
{
    if bs.len() == 0 {
        None
    } else {
        match binding_http(bs[0]) {
            Some(h) => Some(h),
            None => first_binding_http(bs.drop_first()),
        }
    }
}

/// The HTTP data stored in the metadata under `key`, if the entry for `key` holds some.
pub open spec fn metadata_http(md: Seq<(Seq<char>, TypedModel)>, key: Seq<char>) -> Option<RpcHttpModel>
    decreases md.len(),
{
    if md.len() == 0 {
        None
    } else if md[0].0 == key {
        match md[0].1 {
            TypedModel::Http(h) => Some(h),
            _ => None,
        }
    } else {
        metadata_http(md.drop_first(), key)
    }
}

/// The HTTP data of an invocation: from the input bindings, else from the trigger
/// metadata under `req`, `__request__` or `Request`, tried in that order.
pub open spec fn trigger_http(inv: InvocationRequestModel) -> Option<RpcHttpModel> {
    match first_binding_http(inv.input_data) {
        Some(h) => Some(h),
        None => match metadata_http(inv.trigger_metadata, "req"@) {
            Some(h) => Some(h),
            None => match metadata_http(inv.trigger_metadata, "__request__"@) {
                Some(h) => Some(h),
                None => metadata_http(inv.trigger_metadata, "Request"@),
            },
        },
    }
}

/// The HTTP data stored in the metadata under `key`.
fn lookup_metadata_http<'a>(md: &'a Vec<(String, TypedData)>, key: &str) -> (r: Option<&'a RpcHttp>)
    ensures
        match r {
            Some(h) => metadata_http(md@.map_values(|p: (String, TypedData)| (p.0@, p.1@)), key@)
                == Some(h@),
            None => metadata_http(md@.map_values(|p: (String, TypedData)| (p.0@, p.1@)), key@) is None,
        },
{
    let ghost mv = md@.map_values(|p: (String, TypedData)| (p.0@, p.1@));
    let mut i: usize = 0;
    assert(mv.skip(0) =~= mv);
    while i < md.len()
        invariant
            0 <= i <= md.len(),
            mv == md@.map_values(|p: (String, TypedData)| (p.0@, p.1@)),
            metadata_http(mv, key@) == metadata_http(mv.skip(i as int), key@),
        decreases md.len() - i,
    {
        assert(mv.skip(i as int)[0] == mv[i as int]);
        assert(mv.skip(i as int).drop_first() =~= mv.skip(i + 1));
        let (k, d) = &md[i];
        if crate::text::str_eq(k.as_str(), key) {
            match d {
                TypedData::Http(h) => return Some(h),
                _ => return None,
            }
        }
        i += 1;
    }
    None
}

/// Extract the HTTP data from the invocation's input bindings or trigger metadata.
pub fn extract_http_trigger(invocation: &InvocationRequest) -> (r: Result<&RpcHttp, String>)
    ensures
        match r {
            Ok(h) => trigger_http(invocation@) == Some(h@),
            Err(e) => trigger_http(invocation@) is None && e@ == NO_TRIGGER_MESSAGE@,
        },
{
    let ghost bv = invocation.input_data@.map_values(|b: ParameterBinding| b@);
    let mut i: usize = 0;
    assert(bv.skip(0) =~= bv);
    while i < invocation.input_data.len()
        invariant
            0 <= i <= invocation.input_data.len(),
            bv == invocation@.input_data,
            first_binding_http(bv) == first_binding_http(bv.skip(i as int)),
        decreases invocation.input_data.len() - i,
    {
        assert(bv.skip(i as int)[0] == bv[i as int]);
        assert(bv.skip(i as int).drop_first() =~= bv.skip(i + 1));
        match &invocation.input_data[i].data {
            Some(TypedData::Http(h)) => return Ok(h),
            _ => {},
        }
        i += 1;
    }
    match lookup_metadata_http(&invocation.trigger_metadata, "req") {
        Some(h) => return Ok(h),
        None => {},
    }
    match lookup_metadata_http(&invocation.trigger_metadata, "__request__") {
        Some(h) => return Ok(h),
        None => {},
    }
    match lookup_metadata_http(&invocation.trigger_metadata, "Request") {
        Some(h) => Ok(h),
        None => Err(string_from(NO_TRIGGER_MESSAGE)),
    }
}

// ---------------------------------------------------------------------------
// Building the invocation response
// ---------------------------------------------------------------------------

/// A byte that a header value may hold to be readable as text (visible ASCII or tab).
pub open spec fn is_visible_ascii(b: u8) -> bool {
    (32 <= b && b < 127) || b == 9
}

/// The text of a header value: its bytes as characters when all are visible ASCII,
/// otherwise the empty text.
pub open spec fn header_text(v: Seq<u8>) -> Seq<char> {
    if forall|i: int| 0 <= i < v.len() ==> is_visible_ascii(#[trigger] v[i]) {
        v.map_values(|b: u8| b as char)
    } else {
        Seq::empty()
    }
}

/// The text of a header value.
pub fn header_value_text(v: &Vec<u8>) -> (r: String)
    ensures
        r@ == header_text(v@),
{
    let mut i: usize = 0;
    while i < v.len()
        invariant
            0 <= i <= v.len(),
            forall|j: int| 0 <= j < i ==> is_visible_ascii(#[trigger] v@[j]),
        decreases v.len() - i,
    {
        let b = v[i];
        if !((b >= 32 && b < 127) || b == 9) {
            assert(!is_visible_ascii(v@[i as int]));
            return String::new();
        }
        i += 1;
    }
    let mut out = String::new();
    let mut k: usize = 0;
    while k < v.len()
        invariant
            0 <= k <= v.len(),
            out@ == v@.take(k as int).map_values(|b: u8| b as char),
        decreases v.len() - k,
    {
        push_char(&mut out, v[k] as char);
        k += 1;
        assert(out@ =~= v@.take(k as int).map_values(|b: u8| b as char));
    }
    assert(v@.take(v.len() as int) =~= v@);
    out
}

/// `i` is the position of the first entry with key `k`.
pub open spec fn is_key_index(m: Seq<(Seq<char>, Seq<char>)>, k: Seq<char>, i: int) -> bool {
    &&& 0 <= i < m.len()
    &&& m[i].0 == k
    &&& forall|j: int| 0 <= j < i ==> m[j].0 != k
}

/// Some entry has key `k`.
pub open spec fn has_key(m: Seq<(Seq<char>, Seq<char>)>, k: Seq<char>) -> bool {
    exists|i: int| 0 <= i < m.len() && m[i].0 == k
}

/// Map insertion on a list of entries: the entry for `k` gets the value `v`, or a new
/// entry is added at the end.
pub open spec fn map_insert(m: Seq<(Seq<char>, Seq<char>)>, k: Seq<char>, v: Seq<char>) -> Seq<
    (Seq<char>, Seq<char>),
> {
    if has_key(m, k) {
        m.update(choose|i: int| is_key_index(m, k, i), (k, v))
    } else {
        m.push((k, v))
    }
}

/// The value of the entry for `k`.
pub open spec fn map_get(m: Seq<(Seq<char>, Seq<char>)>, k: Seq<char>) -> Option<Seq<char>> {
    if has_key(m, k) {
        Some(m[choose|i: int| is_key_index(m, k, i)].1)
    } else {
        None
    }
}

/// The response headers as a map: each header inserted in turn, so a later value of a
/// name replaces an earlier one.
pub open spec fn collect_headers(hs: Seq<(Seq<char>, Seq<u8>)>) -> Seq<(Seq<char>, Seq<char>)>
    decreases hs.len(),
{
    if hs.len() == 0 {
        Seq::empty()
    } else {
        map_insert(collect_headers(hs.drop_last()), hs.last().0, header_text(hs.last().1))
    }
}

/// The texts of a list of raw headers.
pub open spec fn raw_headers_view(hs: Seq<(String, Vec<u8>)>) -> Seq<(Seq<char>, Seq<u8>)> {
    hs.map_values(|p: (String, Vec<u8>)| (p.0@, p.1@))
}

/// The content type among collected headers, or the empty text.
pub open spec fn content_type_of(m: Seq<(Seq<char>, Seq<char>)>) -> Seq<char> {
    match map_get(m, "content-type"@) {
        Some(v) => v,
        None => Seq::empty(),
    }
}

/// The body of the response to the host: the bytes as they are for binary content, the
/// text they decode to (invalid UTF-8 replaced) otherwise.
pub open spec fn response_body(content_type: Seq<char>, body: Seq<u8>) -> BodyModel {
    if binary_content(lowercase(content_type)) {
        BodyModel::Bytes(body)
    } else {
        BodyModel::String(utf8_lossy(body))
    }
}

/// The body the host gets carries the application's body: the same bytes, or, where
/// those bytes are valid UTF-8, text that encodes back to them.
pub open spec fn body_preserved(b: Option<BodyModel>, body: Seq<u8>) -> bool {
    match b {
        Some(BodyModel::Bytes(v)) => v == body,
        Some(BodyModel::String(s)) => vstd::utf8::valid_utf8(body) ==> vstd::utf8::encode_utf8(s) == body,
        _ => false,
    }
}

/// The host's description of the web application's response.
pub open spec fn response_http(status: u16, headers: Seq<(Seq<char>, Seq<u8>)>, body: Seq<u8>) -> RpcHttpModel {
    let collected = collect_headers(headers);
    RpcHttpModel {
        method: Seq::empty(),
        url: Seq::empty(),
        headers: collected,
        nullable_headers: Seq::empty(),
        body: Some(response_body(content_type_of(collected), body)),
        status_code: decimal(status as nat),
    }
}

/// A successful invocation response carrying `http` both as the `$return` output and as
/// the return value.
pub open spec fn success_response(invocation_id: Seq<char>, http: RpcHttpModel) -> InvocationResponseModel {
    InvocationResponseModel {
        invocation_id,
        output_data: seq![BindingModel { name: "$return"@, data: Some(TypedModel::Http(http)) }],
        return_value: Some(TypedModel::Http(http)),
        result: Some(StatusResultModel { status: STATUS_SUCCESS, result: Seq::empty() }),
    }
}

/// The text put in front of the reason of a failed forwarding.
pub const FORWARDING_ERROR_PREFIX: &'static str = "Web Adapter forwarding error: ";

/// A failed invocation response explaining `reason`.
pub open spec fn failure_response(invocation_id: Seq<char>, reason: Seq<char>) -> InvocationResponseModel {
    InvocationResponseModel {
        invocation_id,
        output_data: Seq::empty(),
        return_value: None,
        result: Some(
            StatusResultModel { status: STATUS_FAILURE, result: FORWARDING_ERROR_PREFIX@ + reason },
        ),
    }
}

/// A key that occurs has a first entry, and `choose` finds it.
proof fn lemma_has_key_first(m: Seq<(Seq<char>, Seq<char>)>, k: Seq<char>)
    requires
        has_key(m, k),
    ensures
        is_key_index(m, k, choose|c: int| is_key_index(m, k, c)),
{
    let w = choose|w: int| 0 <= w < m.len() && m[w].0 == k;
    lemma_first_key_index_exists(m, k, w);
}

/// There is at most one first entry with a key.
proof fn lemma_unique_key_index(m: Seq<(Seq<char>, Seq<char>)>, k: Seq<char>, i: int, j: int)
    requires
        is_key_index(m, k, i),
        is_key_index(m, k, j),
    ensures
        i == j,
{
    if i < j {
        assert(m[i].0 != k);
    } else if j < i {
        assert(m[j].0 != k);
    }
}

/// A key that occurs has a first entry.
proof fn lemma_first_key_index_exists(m: Seq<(Seq<char>, Seq<char>)>, k: Seq<char>, w: int)
    requires
        0 <= w < m.len(),
        m[w].0 == k,
    ensures
        exists|i: int| is_key_index(m, k, i),
    decreases w,
{
    if forall|j: int| 0 <= j < w ==> m[j].0 != k {
        assert(is_key_index(m, k, w));
    } else {
        let j = choose|j: int| 0 <= j < w && m[j].0 == k;
        lemma_first_key_index_exists(m, k, j);
    }
}

/// Reading a key that has just been written gives the value written.
pub proof fn law_header_map_read_written(m: Seq<(Seq<char>, Seq<char>)>, k: Seq<char>, v: Seq<char>)
    ensures
        map_get(map_insert(m, k, v), k) == Some(v),
{
    let m2 = map_insert(m, k, v);
    let n = if has_key(m, k) {
        lemma_has_key_first(m, k);
        choose|c: int| is_key_index(m, k, c)
    } else {
        m.len() as int
    };
    if !has_key(m, k) {
        assert forall|j: int| 0 <= j < n implies m2[j].0 != k by {
            assert(m2[j] == m[j]);
        }
    }
    assert(is_key_index(m2, k, n));
    assert(has_key(m2, k));
    lemma_has_key_first(m2, k);
    lemma_unique_key_index(m2, k, n, choose|c: int| is_key_index(m2, k, c));
}

/// Writing a key leaves what every other key reads unchanged.
pub proof fn law_header_map_read_other(m: Seq<(Seq<char>, Seq<char>)>, k: Seq<char>, v: Seq<char>, other: Seq<char>)
    requires
        other != k,
    ensures
        map_get(map_insert(m, k, v), other) == map_get(m, other),
{
    let m2 = map_insert(m, k, v);
    let ck = if has_key(m, k) {
        lemma_has_key_first(m, k);
        choose|c: int| is_key_index(m, k, c)
    } else {
        m.len() as int
    };
    assert(forall|j: int| 0 <= j < m2.len() && j != ck ==> m2[j] == m[j]);
    assert(0 <= ck < m2.len() ==> m2[ck].0 == k);
    if has_key(m, other) {
        lemma_has_key_first(m, other);
        let c = choose|c: int| is_key_index(m, other, c);
        assert(c != ck);
        assert(is_key_index(m2, other, c));
        assert(has_key(m2, other));
        lemma_has_key_first(m2, other);
        lemma_unique_key_index(m2, other, c, choose|c2: int| is_key_index(m2, other, c2));
    } else {
        assert(!has_key(m2, other)) by {
            if has_key(m2, other) {
                let w = choose|w: int| 0 <= w < m2.len() && m2[w].0 == other;
                assert(w != ck);
                assert(m[w].0 == other);
            }
        }
    }
}

/// Collected response headers name each header once.
pub proof fn law_collected_headers_distinct(hs: Seq<(Seq<char>, Seq<u8>)>)
    ensures
        forall|i: int, j: int|
            #![trigger collect_headers(hs)[i], collect_headers(hs)[j]]
            0 <= i < j < collect_headers(hs).len() ==> collect_headers(hs)[i].0 != collect_headers(hs)[j].0,
    decreases hs.len(),
{
    if hs.len() > 0 {
        law_collected_headers_distinct(hs.drop_last());
        let m = collect_headers(hs.drop_last());
        let k = hs.last().0;
        let m2 = collect_headers(hs);
        assert(m2 == map_insert(m, k, header_text(hs.last().1)));
        if has_key(m, k) {
            lemma_has_key_first(m, k);
            let c = choose|c: int| is_key_index(m, k, c);
            assert forall|i: int, j: int| 0 <= i < j < m2.len() implies m2[i].0 != m2[j].0 by {
                if i == c {
                    assert(m[i].0 != m[j].0);
                } else if j == c {
                    assert(m[i].0 != m[j].0);
                } else {
                    assert(m[i].0 != m[j].0);
                }
            }
        } else {
            assert forall|i: int, j: int| 0 <= i < j < m2.len() implies m2[i].0 != m2[j].0 by {
                if j == m.len() {
                    assert(m2[i] == m[i]);
                    assert(m[i].0 != k);
                } else {
                    assert(m[i].0 != m[j].0);
                }
            }
        }
    }
}

/// A header of the response is reported with the text of its last value.
pub proof fn law_last_header_value_wins(hs: Seq<(Seq<char>, Seq<u8>)>, name: Seq<char>, value: Seq<u8>)
    ensures
        map_get(collect_headers(hs.push((name, value))), name) == Some(header_text(value)),
{
    let s = hs.push((name, value));
    assert(s.drop_last() =~= hs);
    law_header_map_read_written(collect_headers(hs), name, header_text(value));
}

/// Headers that concern one connection are never passed on.
pub proof fn law_hop_by_hop_never_forwarded(hs: Seq<(Seq<char>, Seq<char>)>)
    ensures
        forall|i: int| 0 <= i < forwarded_headers(hs).len() ==> !is_hop_by_hop(
            lowercase(#[trigger] forwarded_headers(hs)[i].0),
        ),
    decreases hs.len(),
{
    if hs.len() > 0 {
        law_hop_by_hop_never_forwarded(hs.drop_last());
        let before = forwarded_headers(hs.drop_last());
        let f = forwarded_headers(hs);
        if !is_hop_by_hop(lowercase(hs.last().0)) {
            assert forall|i: int| 0 <= i < f.len() implies !is_hop_by_hop(lowercase(#[trigger] f[i].0)) by {
                if i < before.len() {
                    assert(f[i] == before[i]);
                }
            }
        }
    }
}

/// Exactly the headers named host, transfer-encoding, connection or keep-alive (in any
/// case) are held back; every other header is passed on, in order and unchanged.
pub proof fn law_forwarded_headers_are_all_others(hs: Seq<(Seq<char>, Seq<char>)>)
    ensures
        forwarded_headers(hs) == hs.filter(
            |p: (Seq<char>, Seq<char>)|
                !(lowercase(p.0) == "host"@ || lowercase(p.0) == "transfer-encoding"@
                    || lowercase(p.0) == "connection"@ || lowercase(p.0) == "keep-alive"@),
        ),
    decreases hs.len(),
{
    reveal(Seq::filter);
    if hs.len() > 0 {
        law_forwarded_headers_are_all_others(hs.drop_last());
    }
}

/// Every nullable header that has a value and is not named host, transfer-encoding,
/// connection or keep-alive (in any case) is passed on with that value, in order; no
/// other is.
pub proof fn law_forwarded_nullable_headers_are_all_others(hs: Seq<(Seq<char>, Option<Seq<char>>)>)
    ensures
        forwarded_nullable_headers(hs) == hs.filter_map(
            |p: (Seq<char>, Option<Seq<char>>)|
                match p.1 {
                    Some(v) => if lowercase(p.0) == "host"@ || lowercase(p.0) == "transfer-encoding"@
                        || lowercase(p.0) == "connection"@ || lowercase(p.0) == "keep-alive"@ {
                        None
                    } else {
                        Some((p.0, v))
                    },
                    None => None,
                },
        ),
    decreases hs.len(),
{
    if hs.len() > 0 {
        law_forwarded_nullable_headers_are_all_others(hs.drop_last());
    }
}

/// A lower-cased header name is held back exactly when it is host, transfer-encoding,
/// connection or keep-alive.
pub proof fn law_hop_by_hop_names(lower: Seq<char>)
    ensures
        is_hop_by_hop(lower) <==> (lower == "host"@ || lower == "transfer-encoding"@ || lower
            == "connection"@ || lower == "keep-alive"@),
{
}

/// The response body is the application's bytes, unchanged, exactly when the
/// lower-cased content type names one of the binary kinds (application/octet-stream,
/// image/, audio/, video/, application/pdf, application/zip, application/gzip) and none
/// of the textual ones (text/, application/json, application/xml,
/// application/javascript, application/x-www-form-urlencoded, +json, +xml); otherwise it
/// is text.
pub proof fn law_content_type_decides_body(content_type: Seq<char>, body: Seq<u8>)
    ensures
        ({
            let l = lowercase(content_type);
            let textual = contains_seq(l, "text/"@) || contains_seq(l, "application/json"@)
                || contains_seq(l, "application/xml"@) || contains_seq(l, "application/javascript"@)
                || contains_seq(l, "application/x-www-form-urlencoded"@) || contains_seq(l, "+json"@)
                || contains_seq(l, "+xml"@);
            let binary = contains_seq(l, "application/octet-stream"@) || contains_seq(l, "image/"@)
                || contains_seq(l, "audio/"@) || contains_seq(l, "video/"@) || contains_seq(
                l,
                "application/pdf"@,
            ) || contains_seq(l, "application/zip"@) || contains_seq(l, "application/gzip"@);
            &&& (!textual && binary) ==> response_body(content_type, body) == BodyModel::Bytes(body)
            &&& !(!textual && binary) ==> response_body(content_type, body) is String
            &&& binary_content(l) <==> (!textual && binary)
        }),
{
}

/// The trigger is the HTTP data of the first input binding that carries any; only when
/// no input binding does is the trigger metadata looked at.
pub proof fn law_trigger_from_first_http_input(inv: InvocationRequestModel, i: int, h: RpcHttpModel)
    requires
        0 <= i < inv.input_data.len(),
        inv.input_data[i].data == Some(TypedModel::Http(h)),
        forall|j: int|
            #![trigger inv.input_data[j]]
            0 <= j < i ==> !(inv.input_data[j].data matches Some(TypedModel::Http(_))),
    ensures
        trigger_http(inv) == Some(h),
{
    lemma_first_binding_http_at(inv.input_data, i, h);
}

/// The first binding carrying HTTP data gives the result of the search.
proof fn lemma_first_binding_http_at(bs: Seq<BindingModel>, i: int, h: RpcHttpModel)
    requires
        0 <= i < bs.len(),
        bs[i].data == Some(TypedModel::Http(h)),
        forall|j: int| #![trigger bs[j]] 0 <= j < i ==> !(bs[j].data matches Some(TypedModel::Http(_))),
    ensures
        first_binding_http(bs) == Some(h),
    decreases i,
{
    if i > 0 {
        assert forall|j: int| #![trigger bs.drop_first()[j]] 0 <= j < i - 1 implies !(bs.drop_first()[j].data matches Some(
            TypedModel::Http(_),
        )) by {
            assert(bs.drop_first()[j] == bs[j + 1]);
        }
        assert(!(bs[0].data matches Some(TypedModel::Http(_))));
        lemma_first_binding_http_at(bs.drop_first(), i - 1, h);
    }
}

/// Without a base path, or for a path that does not start with it, the path reaches the
/// application unchanged.
pub proof fn law_path_outside_base_unchanged(path: Seq<char>, base: Option<Seq<char>>)
    requires
        base matches Some(b) ==> !(b.len() <= path.len() && path.take(b.len() as int) == b),
    ensures
        strip_base(path, base) == path,
{
}

/// A header value made only of visible ASCII characters and tabs is read as those
/// characters; one holding any other byte is read as the empty text.
pub proof fn law_header_value_text(v: Seq<u8>)
    ensures
        (forall|i: int| 0 <= i < v.len() ==> (32 <= #[trigger] v[i] < 127 || v[i] == 9)) ==> (
        header_text(v).len() == v.len() && forall|i: int|
            0 <= i < v.len() ==> #[trigger] header_text(v)[i] == v[i] as char),
        (exists|i: int| 0 <= i < v.len() && !(32 <= #[trigger] v[i] < 127 || v[i] == 9)) ==> header_text(
            v,
        ).len() == 0,
{
}

/// Inserts `(k, v)` into a list of entries with distinct keys.
fn insert_entry(m: &mut Vec<(String, String)>, k: String, v: String)
    ensures
        pairs_view(final(m)@) == map_insert(pairs_view(old(m)@), k@, v@),
{
    let ghost mv = pairs_view(m@);
    let mut i: usize = 0;
    while i < m.len()
        invariant
            0 <= i <= m.len(),
            mv == pairs_view(m@),
            m@ == old(m)@,
            forall|j: int| 0 <= j < i ==> mv[j].0 != k@,
        decreases m.len() - i,
    {
        if crate::text::str_eq(m[i].0.as_str(), k.as_str()) {
            proof {
                assert(is_key_index(mv, k@, i as int));
                assert(has_key(mv, k@));
                let c = choose|c: int| is_key_index(mv, k@, c);
                if c < i {
                    assert(mv[c].0 != k@);
                } else if i < c {
                    assert(mv[i as int].0 != k@);
                }
            }
            m.set(i, (k, v));
            assert(pairs_view(m@) =~= mv.update(i as int, (k@, v@)));
            return;
        }
        i += 1;
    }
    assert(!has_key(mv, k@));
    m.push((k, v));
    assert(pairs_view(m@) =~= mv.push((k@, v@)));
}

/// The value of the entry for `k`, or the empty string.
fn get_entry_or_empty(m: &Vec<(String, String)>, k: &str) -> (r: String)
    ensures
        r@ == match map_get(pairs_view(m@), k@) {
            Some(v) => v,
            None => Seq::empty(),
        },
{
    let ghost mv = pairs_view(m@);
    let mut i: usize = 0;
    while i < m.len()
        invariant
            0 <= i <= m.len(),
            mv == pairs_view(m@),
            forall|j: int| 0 <= j < i ==> mv[j].0 != k@,
        decreases m.len() - i,
    {
        if crate::text::str_eq(m[i].0.as_str(), k) {
            proof {
                assert(is_key_index(mv, k@, i as int));
                let c = choose|c: int| is_key_index(mv, k@, c);
                if c < i {
                    assert(mv[c].0 != k@);
                } else if i < c {
                    assert(mv[i as int].0 != k@);
                }
            }
            return m[i].1.clone();
        }
        i += 1;
    }
    String::new()
}

/// The response headers collected into a map.
pub fn collect_response_headers(headers: &Vec<(String, Vec<u8>)>) -> (r: Vec<(String, String)>)
    ensures
        pairs_view(r@) == collect_headers(raw_headers_view(headers@)),
{
    let ghost hv = raw_headers_view(headers@);
    let mut out: Vec<(String, String)> = Vec::new();
    let mut i: usize = 0;
    assert(hv.take(0) =~= Seq::<(Seq<char>, Seq<u8>)>::empty());
    assert(pairs_view(out@) =~= Seq::<(Seq<char>, Seq<char>)>::empty());
    while i < headers.len()
        invariant
            0 <= i <= headers.len(),
            hv == raw_headers_view(headers@),
            pairs_view(out@) == collect_headers(hv.take(i as int)),
        decreases headers.len() - i,
    {
        assert(hv.take(i + 1).drop_last() =~= hv.take(i as int));
        assert(hv.take(i + 1).last() == hv[i as int]);
        let text = header_value_text(&headers[i].1);
        insert_entry(&mut out, headers[i].0.clone(), text);
        i += 1;
    }
    assert(hv.take(headers.len() as int) =~= hv);
    out
}

/// The host's description of the web application's response.
fn build_response_http(status: u16, headers: &Vec<(String, Vec<u8>)>, body: &Vec<u8>) -> (r: RpcHttp)
    ensures
        r@ == response_http(status, raw_headers_view(headers@), body@),
        body_preserved(r@.body, body@),
{
    let collected = collect_response_headers(headers);
    let content_type = get_entry_or_empty(&collected, "content-type");
    let body_data = if is_binary_content_type(content_type.as_str()) {
        BodyData::Bytes(bytes_to_vec(body.as_slice()))
    } else {
        BodyData::String(from_utf8_lossy(body.as_slice()))
    };
    let mut digits: Vec<char> = Vec::new();
    push_decimal(&mut digits, status as u64);
    let r = RpcHttp {
        method: String::new(),
        url: String::new(),
        headers: collected,
        nullable_headers: Vec::new(),
        body: Some(body_data),
        status_code: string_of(&digits),
    };
    assert(r@.nullable_headers =~= Seq::<(Seq<char>, Option<Seq<char>>)>::empty());
    r
}

/// Convert the web application's HTTP response (status, headers with raw values, body)
/// into the invocation response for the host.
pub fn build_invocation_response(
    invocation_id: &str,
    status: u16,
    headers: &Vec<(String, Vec<u8>)>,
    body: &Vec<u8>,
) -> (r: InvocationResponse)
    ensures
        r@ == success_response(invocation_id@, response_http(status, raw_headers_view(headers@), body@)),
        r@.return_value matches Some(TypedModel::Http(h)) && body_preserved(h.body, body@),
{
    let output = ParameterBinding {
        name: string_from("$return"),
        data: Some(TypedData::Http(build_response_http(status, headers, body))),
    };
    let return_value = TypedData::Http(build_response_http(status, headers, body));
    let mut output_data: Vec<ParameterBinding> = Vec::new();
    output_data.push(output);
    let r = InvocationResponse {
        invocation_id: string_from(invocation_id),
        output_data,
        return_value: Some(return_value),
        result: Some(StatusResult { status: STATUS_SUCCESS, result: String::new() }),
    };
    assert(r@.output_data =~= success_response(invocation_id@, response_http(status, raw_headers_view(headers@), body@)).output_data);
    r
}

/// The invocation response reporting that forwarding failed for `reason`.
pub fn forwarding_failure(invocation_id: &str, reason: &str) -> (r: InvocationResponse)
    ensures
        r@ == failure_response(invocation_id@, reason@),
{
    let mut message = string_from(FORWARDING_ERROR_PREFIX);
    push_str(&mut message, reason);
    let r = InvocationResponse {
        invocation_id: string_from(invocation_id),
        output_data: Vec::new(),
        return_value: None,
        result: Some(StatusResult { status: STATUS_FAILURE, result: message }),
    };
    assert(r@.output_data =~= Seq::<BindingModel>::empty());
    r
}

/// The HTTP forwarder that translates between invocations and HTTP.
#[derive(Debug)]
pub struct HttpForwarder {
    pub config: AdapterConfig,
}

impl HttpForwarder {
    /// Create a new HTTP forwarder with the given configuration.
    pub fn new(config: AdapterConfig) -> (r: Self)
        ensures
            r.config == config,
    {
        HttpForwarder { config }
    }

    /// The request for the web application that an invocation becomes, or the reason it
    /// cannot be forwarded.
    pub fn prepare(&self, invocation: &InvocationRequest) -> (r: Result<OutboundRequest, String>)
        ensures
            match trigger_http(invocation@) {
                None => r matches Err(e) && e@ == NO_TRIGGER_MESSAGE@,
                Some(h) => match r {
                    Ok(o) => prepared_request(
                        self.config.host@,
                        self.config.port,
                        opt_view(self.config.remove_base_path),
                        h,
                    ) == Ok::<OutboundModel, Seq<char>>(o@),
                    Err(e) => prepared_request(
                        self.config.host@,
                        self.config.port,
                        opt_view(self.config.remove_base_path),
                        h,
                    ) == Err::<OutboundModel, Seq<char>>(e@),
                },
            },
    {
        match extract_http_trigger(invocation) {
            Ok(h) => self.build_http_request(h),
            Err(e) => Err(e),
        }
    }

    /// Convert the host's description of an HTTP request into the request for the web
    /// application.
    pub fn build_http_request(&self, rpc_http: &RpcHttp) -> (r: Result<OutboundRequest, String>)
        ensures
            match r {
                Ok(o) => prepared_request(
                    self.config.host@,
                    self.config.port,
                    opt_view(self.config.remove_base_path),
                    rpc_http@,
                ) == Ok::<OutboundModel, Seq<char>>(o@),
                Err(e) => prepared_request(
                    self.config.host@,
                    self.config.port,
                    opt_view(self.config.remove_base_path),
                    rpc_http@,
                ) == Err::<OutboundModel, Seq<char>>(e@),
            },
    {
        let (path_text, query) = match parse_uri(rpc_http.url.as_str()) {
            Ok(parts) => parts,
            Err(e) => return Err(e),
        };
        let method = to_uppercase(rpc_http.method.as_str());
        self.request_from_parts(path_text.as_str(), &query, method, rpc_http)
    }

    /// The request for the web application made of the request's path and query, its
    /// method in upper case, and the rest of the host's description of it.
    pub fn request_from_parts(
        &self,
        path: &str,
        query: &Option<String>,
        method: String,
        rpc_http: &RpcHttp,
    ) -> (r: Result<OutboundRequest, String>)
        ensures
            match r {
                Ok(o) => outbound_from_parts(
                    self.config.host@,
                    self.config.port,
                    opt_view(self.config.remove_base_path),
                    path@,
                    opt_view(*query),
                    method@,
                    rpc_http@,
                ) == Ok::<OutboundModel, Seq<char>>(o@),
                Err(e) => outbound_from_parts(
                    self.config.host@,
                    self.config.port,
                    opt_view(self.config.remove_base_path),
                    path@,
                    opt_view(*query),
                    method@,
                    rpc_http@,
                ) == Err::<OutboundModel, Seq<char>>(e@),
            },
    {
        match check_method(method.as_str()) {
            Ok(()) => {},
            Err(e) => return Err(e),
        }
        let raw_path = chars_of(path);
        let stripped = strip_base_path(&raw_path, &self.config.remove_base_path);
        let mut target = self.config.app_base_url();
        push_chars(&mut target, &stripped);
        match query {
            Some(q) => {
                push_char(&mut target, '?');
                push_str(&mut target, q.as_str());
                assert(seq!['?'] + q@ =~= seq!['?'].add(q@));
            },
            None => {},
        }
        assert(target@ =~= base_url(self.config.host@, self.config.port) + strip_base(
            raw_path@,
            opt_view(self.config.remove_base_path),
        ) + query_suffix(opt_view(*query)));
        match parse_uri(target.as_str()) {
            Ok(_) => {},
            Err(e) => return Err(e),
        }
        let mut headers: Vec<(String, String)> = Vec::new();
        assert(pairs_view(headers@) =~= Seq::<(Seq<char>, Seq<char>)>::empty());
        forward_headers(&rpc_http.headers, &mut headers);
        forward_nullable_headers(&rpc_http.nullable_headers, &mut headers);
        let mut host_value = string_from(self.config.host.as_str());
        push_str(&mut host_value, ":");
        let mut digits: Vec<char> = Vec::new();
        push_decimal(&mut digits, self.config.port as u64);
        push_chars(&mut host_value, &digits);
        let ghost before = pairs_view(headers@);
        headers.push((string_from("Host"), host_value));
        assert(pairs_view(headers@) =~= before.push(("Host"@, self.config.host@ + ":"@ + decimal(self.config.port as nat))));
        assert(pairs_view(headers@) =~= forwarded_headers(rpc_http@.headers) + forwarded_nullable_headers(
            rpc_http@.nullable_headers,
        ) + seq![("Host"@, self.config.host@ + ":"@ + decimal(self.config.port as nat))]);
        match find_header_error(&headers) {
            Some(e) => return Err(e),
            None => {},
        }
        let body = extract_body(&rpc_http.body);
        let out = OutboundRequest { method, uri: target, headers, body };
        assert(out@.headers =~= forwarded_headers(rpc_http@.headers) + forwarded_nullable_headers(
            rpc_http@.nullable_headers,
        ) + seq![("Host"@, self.config.host@ + ":"@ + decimal(self.config.port as nat))]);
        assert(out@.body == body_bytes(rpc_http@.body));
        Ok(out)
    }
}

} // verus!
