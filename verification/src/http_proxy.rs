//! Reverse proxy for the host's custom-handler mode: where an incoming request goes,
//! which of its headers go along, and what a failed forwarding is answered.
use vstd::prelude::*;
use crate::config::opt_view;
use crate::http_forwarder::{is_hop_by_hop, is_hop_by_hop_header};
use crate::text::{
    chars_of, chars_start_with, lowercase, push_char, push_chars, push_str, split_once,
    split_once_chars, starts_with, string_from, string_of,
};

verus! {

/// Configuration for the HTTP proxy.
#[derive(Debug)]
pub struct ProxyConfig {
    /// The base URL of the user's web application (e.g. "http://127.0.0.1:8080").
    pub target_base: String,
    /// Optional base path to strip from incoming request paths.
    pub remove_base_path: Option<String>,
}

/// The path of a request after the base path is removed, with a `/` put in front
/// when it does not start with one.
pub open spec fn proxy_path(path: Seq<char>, base: Seq<char>) -> Seq<char> {
    let rest = if starts_with(path, base) { path.skip(base.len() as int) } else { path };
    if rest.len() > 0 && rest[0] == '/' {
        rest
    } else {
        seq!['/'] + rest
    }
}

/// The path and query an incoming request is forwarded with (`/` when the request has
/// none): unchanged without a base path; otherwise the part before the first `?` loses
/// the base path and the query is kept.
pub open spec fn proxied_path_and_query(pq: Option<Seq<char>>, base: Option<Seq<char>>) -> Seq<char> {
    let pq = match pq {
        Some(t) => t,
        None => seq!['/'],
    };
    match base {
        None => pq,
        Some(b) => match split_once(pq, '?') {
            Some((p, q)) => proxy_path(p, b) + seq!['?'] + q,
            None => proxy_path(pq, b),
        },
    }
}

/// The path with the base path removed and a leading `/` ensured.
fn strip_proxy_path(path: &Vec<char>, base: &Vec<char>) -> (r: Vec<char>)
    ensures
        r@ == proxy_path(path@, base@),
{
    let rest = if chars_start_with(path, base) {
        let r = crate::text::sub_chars(path, base.len(), path.len());
        assert(r@ =~= path@.skip(base@.len() as int));
        r
    } else {
        let r = crate::text::sub_chars(path, 0, path.len());
        assert(r@ =~= path@);
        r
    };
    if rest.len() > 0 && rest[0] == '/' {
        rest
    } else {
        let mut out: Vec<char> = vec!['/'];
        let mut k: usize = 0;
        while k < rest.len()
            invariant
                0 <= k <= rest.len(),
                out@ == seq!['/'] + rest@.take(k as int),
            decreases rest.len() - k,
        {
            out.push(rest[k]);
            k += 1;
            assert(out@ =~= seq!['/'] + rest@.take(k as int));
        }
        assert(rest@.take(rest.len() as int) =~= rest@);
        out
    }
}

impl ProxyConfig {
    /// The path and query an incoming request is forwarded with.
    pub fn target_path(&self, path_and_query: Option<&str>) -> (r: String)
        ensures
            r@ == proxied_path_and_query(
                match path_and_query {
                    Some(t) => Some(t@),
                    None => None,
                },
                opt_view(self.remove_base_path),
            ),
    {
        let pq = match path_and_query {
            Some(t) => chars_of(t),
            None => vec!['/'],
        };
        match &self.remove_base_path {
            None => string_of(&pq),
            Some(base) => {
                let b = chars_of(base.as_str());
                match split_once_chars(&pq, '?') {
                    Some((p, q)) => {
                        let mut out = string_of(&strip_proxy_path(&p, &b));
                        push_char(&mut out, '?');
                        push_chars(&mut out, &q);
                        out
                    },
                    None => string_of(&strip_proxy_path(&pq, &b)),
                }
            },
        }
    }

    /// The URL an incoming request is forwarded to.
    pub fn target_url(&self, path_and_query: Option<&str>) -> (r: String)
        ensures
            r@ == self.target_base@ + proxied_path_and_query(
                match path_and_query {
                    Some(t) => Some(t@),
                    None => None,
                },
                opt_view(self.remove_base_path),
            ),
    {
        let mut out = string_from(self.target_base.as_str());
        let path = self.target_path(path_and_query);
        push_str(&mut out, path.as_str());
        out
    }
}

/// The headers of an incoming request that are passed on: all but the hop-by-hop ones,
/// in order.
pub open spec fn kept_headers(hs: Seq<(Seq<char>, Seq<u8>)>) -> Seq<(Seq<char>, Seq<u8>)>
    decreases hs.len(),
{
    if hs.len() == 0 {
        Seq::empty()
    } else {
        let before = kept_headers(hs.drop_last());
        if is_hop_by_hop(lowercase(hs.last().0)) {
            before
        } else {
            before.push(hs.last())
        }
    }
}

/// The texts of a list of raw headers.
pub open spec fn raw_view(hs: Seq<(String, Vec<u8>)>) -> Seq<(Seq<char>, Seq<u8>)> {
    hs.map_values(|p: (String, Vec<u8>)| (p.0@, p.1@))
}

/// Keep the headers of an incoming request that are passed on.
pub fn filter_proxy_headers(headers: &Vec<(String, Vec<u8>)>) -> (r: Vec<(String, Vec<u8>)>)
    ensures
        raw_view(r@) == kept_headers(raw_view(headers@)),
{
    let ghost hv = raw_view(headers@);
    let mut out: Vec<(String, Vec<u8>)> = Vec::new();
    let mut i: usize = 0;
    assert(hv.take(0) =~= Seq::<(Seq<char>, Seq<u8>)>::empty());
    assert(raw_view(out@) =~= Seq::<(Seq<char>, Seq<u8>)>::empty());
    while i < headers.len()
        invariant
            0 <= i <= headers.len(),
            hv == raw_view(headers@),
            raw_view(out@) == kept_headers(hv.take(i as int)),
        decreases headers.len() - i,
    {
        assert(hv.take(i + 1).drop_last() =~= hv.take(i as int));
        assert(hv.take(i + 1).last() == hv[i as int]);
        let (k, v) = &headers[i];
        if !is_hop_by_hop_header(k.as_str()) {
            let ghost before = raw_view(out@);
            out.push((k.clone(), crate::http_forwarder::bytes_to_vec(v.as_slice())));
            assert(raw_view(out@) =~= before.push((k@, v@)));
        }
        i += 1;
    }
    assert(hv.take(headers.len() as int) =~= hv);
    out
}

/// Status of the answer when the web application cannot be reached or answered badly.
pub const BAD_GATEWAY_STATUS: u16 = 502;

/// Why forwarding an incoming request failed.
#[derive(Debug)]
pub enum ProxyFailure {
    /// The incoming request's body could not be read.
    ReadRequestBody,
    /// The outbound request could not be built.
    BuildRequest,
    /// The web application's response body could not be read.
    ReadResponse,
    /// The web application could not be reached; the text of the error.
    Upstream(String),
}

/// The body of the 502 answer for a failure.
pub open spec fn bad_gateway_text(f: ProxyFailure) -> Seq<char> {
    match f {
        ProxyFailure::ReadRequestBody => "Bad Gateway: failed to read request body"@,
        ProxyFailure::BuildRequest => "Bad Gateway: failed to build request"@,
        ProxyFailure::ReadResponse => "Bad Gateway: failed to read response"@,
        ProxyFailure::Upstream(e) => "Bad Gateway: "@ + e@,
    }
}

/// The body of the 502 answer for a failure.
pub fn bad_gateway_body(f: &ProxyFailure) -> (r: String)
    ensures
        r@ == bad_gateway_text(*f),
{
    match f {
        ProxyFailure::ReadRequestBody => string_from("Bad Gateway: failed to read request body"),
        ProxyFailure::BuildRequest => string_from("Bad Gateway: failed to build request"),
        ProxyFailure::ReadResponse => string_from("Bad Gateway: failed to read response"),
        ProxyFailure::Upstream(e) => {
            let mut out = string_from("Bad Gateway: ");
            push_str(&mut out, e.as_str());
            out
        },
    }
}

/// With a base path configured, every forwarded path starts with `/`.
pub proof fn law_proxied_path_is_absolute(pq: Option<Seq<char>>, base: Seq<char>)
    ensures
        proxied_path_and_query(pq, Some(base)).len() > 0,
        proxied_path_and_query(pq, Some(base))[0] == '/',
{
    let t = match pq {
        Some(t) => t,
        None => seq!['/'],
    };
    match split_once(t, '?') {
        Some((p, q)) => {
            assert((proxy_path(p, base) + seq!['?'] + q)[0] == proxy_path(p, base)[0]);
        },
        None => {},
    }
}

/// Without a base path the request's path and query go on unchanged (`/` when it has
/// none); with one, a path under the base loses it and keeps its query.
pub proof fn law_proxy_path_under_base(base: Seq<char>, rest: Seq<char>, q: Seq<char>, pq: Seq<char>)
    requires
        rest.len() > 0 && rest[0] == '/',
        forall|i: int| 0 <= i < base.len() ==> #[trigger] base[i] != '?',
        forall|i: int| 0 <= i < rest.len() ==> #[trigger] rest[i] != '?',
    ensures
        proxied_path_and_query(Some(pq), None) == pq,
        proxied_path_and_query(None, None) == seq!['/'],
        proxied_path_and_query(Some(base + rest + seq!['?'] + q), Some(base)) == rest + seq!['?'] + q,
        proxied_path_and_query(Some(base + rest), Some(base)) == rest,
{
    let p = base + rest;
    assert forall|i: int| 0 <= i < p.len() implies #[trigger] p[i] != '?' by {
        if i < base.len() {
            assert(p[i] == base[i]);
        } else {
            assert(p[i] == rest[i - base.len()]);
        }
    }
    assert(p.take(base.len() as int) =~= base);
    assert(p.skip(base.len() as int) =~= rest);
    assert(!crate::text::has_char(p, '?'));
    assert(base + rest + seq!['?'] + q =~= p.push('?') + q);
    crate::text::lemma_split_once_at_join(p, q, '?');
    assert(split_once(p, '?') is None);
}

} // verus!
