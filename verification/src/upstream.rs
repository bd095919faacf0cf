//! What goes upstream and what comes back: the upstream URL, the request
//! headers, which reply headers are passed on, how the first part of a
//! reply is read for an error, and the business error code found in it.
use vstd::prelude::*;
use vstd::string::{StringExecFns, StrSliceExecFns};
use vstd::utf8::encode_utf8;
use crate::config::{Endpoint, KeyMode, PathMode};
use crate::protocol::{Protocol, suffix_of};
use crate::json::{
    code_field_view, CodeField, CodeFieldView, json_scalar_at, json_text_scalar_at,
    scalar_in_json_bytes, scalar_in_json_text,
};
use crate::text::{
    chars_of, contains_chars, contains_seq, copy_range, eq_ascii_folded, find_char,
    first_index_of, lemma_first_index_some, lines_of, name_is, parse_i64, parse_i64_spec,
    push_bytes, push_str, skip_all_prefix, starts_with, starts_with_at, strip_all_prefix,
    strip_cr, trim, trim_bounds, trim_end_char, trim_end_len,
};

verus! {

// ---------------------------------------------------------------------------
// The upstream URL
// ---------------------------------------------------------------------------

/// The URL a request goes to: in `append` mode `base_url` without trailing
/// `/` followed by the protocol's suffix; in `full` mode `base_url` as
/// written.
pub open spec fn upstream_url_of(base: Seq<char>, mode: PathMode, p: Protocol) -> Seq<char> {
    match mode {
        PathMode::Append => trim_end_char(base, '/') + suffix_of(p),
        PathMode::Full => base,
    }
}

/// The URL that requests of `protocol` to `ep` go to.
pub fn upstream_url(ep: &Endpoint, protocol: Protocol) -> (r: String)
    ensures
        r@ == upstream_url_of(ep.base_url@, ep.path_mode, protocol),
{
    match ep.path_mode {
        PathMode::Append => {
            let v = chars_of(ep.base_url.as_str());
            let n = v.len();
            let b = trim_end_len(&v, n, '/');
            proof {
                assert(v@.subrange(0, n as int) =~= ep.base_url@);
            }
            let base = ep.base_url.as_str().substring_char(0, b);
            let mut url = String::from_str(base);
            url.append(protocol.append_suffix());
            url
        },
        PathMode::Full => ep.base_url.clone(),
    }
}

// ---------------------------------------------------------------------------
// Request headers
// ---------------------------------------------------------------------------

/// Headers as name and value bytes.
pub open spec fn headers_view(h: Seq<(String, Vec<u8>)>) -> Seq<(Seq<char>, Seq<u8>)> {
    h.map_values(|p: (String, Vec<u8>)| (p.0@, p.1@))
}

/// A client header that carries the client's key.
pub open spec fn is_key_header(n: Seq<char>) -> bool {
    eq_ascii_folded(n, "authorization"@) || eq_ascii_folded(n, "x-api-key"@)
}

/// The Anthropic API version header.
pub open spec fn is_version_header(n: Seq<char>) -> bool {
    eq_ascii_folded(n, "anthropic-version"@)
}

/// Client headers that are not copied among the ordinary ones: the key and
/// version headers, and those that describe the client's own connection.
pub open spec fn is_withheld_header(n: Seq<char>) -> bool {
    ||| is_key_header(n)
    ||| is_version_header(n)
    ||| eq_ascii_folded(n, "host"@)
    ||| eq_ascii_folded(n, "content-length"@)
    ||| eq_ascii_folded(n, "connection"@)
    ||| eq_ascii_folded(n, "transfer-encoding"@)
}

/// The client's key headers, in order.
pub open spec fn key_headers(h: Seq<(Seq<char>, Seq<u8>)>) -> Seq<(Seq<char>, Seq<u8>)>
    decreases h.len(),
{
    if h.len() == 0 {
        seq![]
    } else if is_key_header(h.last().0) {
        key_headers(h.drop_last()).push(h.last())
    } else {
        key_headers(h.drop_last())
    }
}

/// The client headers that are copied as they are, in order.
pub open spec fn copied_headers(h: Seq<(Seq<char>, Seq<u8>)>) -> Seq<(Seq<char>, Seq<u8>)>
    decreases h.len(),
{
    if h.len() == 0 {
        seq![]
    } else if !is_withheld_header(h.last().0) {
        copied_headers(h.drop_last()).push(h.last())
    } else {
        copied_headers(h.drop_last())
    }
}

/// The client sent an Anthropic version header.
pub open spec fn has_version_header(h: Seq<(Seq<char>, Seq<u8>)>) -> bool {
    exists|i: int| 0 <= i < h.len() && is_version_header(#[trigger] h[i].0)
}

/// The configured key replaces the client's: override mode with a
/// non-empty key.
pub open spec fn uses_configured_key(ep: Endpoint) -> bool {
    ep.key_mode == KeyMode::Override && ep.api_key@.len() > 0
}

/// The Anthropic version sent when the client sends none.
pub open spec fn anthropic_version() -> Seq<u8> {
    encode_utf8("2023-06-01"@)
}

/// The headers that carry the key: the configured key (as a bearer token,
/// or as `x-api-key` with the Anthropic version), or else the client's key
/// headers, with the Anthropic version added for Anthropic requests that
/// lack one.
pub open spec fn auth_headers(
    configured: bool,
    key: Seq<char>,
    p: Protocol,
    client: Seq<(Seq<char>, Seq<u8>)>,
) -> Seq<(Seq<char>, Seq<u8>)> {
    if configured {
        match p {
            Protocol::Anthropic => seq![
                ("x-api-key"@, encode_utf8(key)),
                ("anthropic-version"@, anthropic_version()),
            ],
            _ => seq![("authorization"@, encode_utf8("Bearer "@) + encode_utf8(key))],
        }
    } else if p == Protocol::Anthropic && !has_version_header(client) {
        key_headers(client).push(("anthropic-version"@, anthropic_version()))
    } else {
        key_headers(client)
    }
}

/// All headers of the upstream request, in order: the key headers, the
/// copied client headers, and `content-type: application/json`.
pub open spec fn request_headers(
    configured: bool,
    key: Seq<char>,
    p: Protocol,
    client: Seq<(Seq<char>, Seq<u8>)>,
) -> Seq<(Seq<char>, Seq<u8>)> {
    auth_headers(configured, key, p, client) + copied_headers(client) + seq![
        ("content-type"@, encode_utf8("application/json"@)),
    ]
}

/// A header with a literal name and the UTF-8 bytes of `value`.
fn literal_header(name: &str, value: &str) -> (r: (String, Vec<u8>))
    ensures
        r.0@ == name@,
        r.1@ == encode_utf8(value@),
{
    let mut v: Vec<u8> = Vec::new();
    push_str(&mut v, value);
    (String::from_str(name), v)
}

/// A copy of a header.
fn copy_header(h: &(String, Vec<u8>)) -> (r: (String, Vec<u8>))
    ensures
        r.0@ == h.0@,
        r.1@ == h.1@,
{
    let mut v: Vec<u8> = Vec::new();
    push_bytes(&mut v, h.1.as_slice());
    (h.0.clone(), v)
}

/// Which of the three kinds a client header name is.
fn classify(name: &String) -> (r: (bool, bool, bool))
    ensures
        r.0 == is_key_header(name@),
        r.1 == is_version_header(name@),
        r.2 == is_withheld_header(name@),
{
    let n = chars_of(name.as_str());
    let key = name_is(&n, &chars_of("authorization")) || name_is(&n, &chars_of("x-api-key"));
    let version = name_is(&n, &chars_of("anthropic-version"));
    let withheld = key || version || name_is(&n, &chars_of("host")) || name_is(
        &n,
        &chars_of("content-length"),
    ) || name_is(&n, &chars_of("connection")) || name_is(&n, &chars_of("transfer-encoding"));
    (key, version, withheld)
}

/// The headers of the upstream request for a client request with headers
/// `client` to `ep`.
pub fn upstream_request_headers(
    ep: &Endpoint,
    protocol: Protocol,
    client: &Vec<(String, Vec<u8>)>,
) -> (r: Vec<(String, Vec<u8>)>)
    ensures
        headers_view(r@) == request_headers(
            uses_configured_key(*ep),
            ep.api_key@,
            protocol,
            headers_view(client@),
        ),
{
    let ghost cv = headers_view(client@);
    let configured = ep.key_mode == KeyMode::Override && !ep.api_key.as_str().is_empty();
    let mut out: Vec<(String, Vec<u8>)> = Vec::new();
    if configured {
        match protocol {
            Protocol::Anthropic => {
                let mut key: Vec<u8> = Vec::new();
                push_str(&mut key, ep.api_key.as_str());
                out.push((String::from_str("x-api-key"), key));
                out.push(literal_header("anthropic-version", "2023-06-01"));
            },
            _ => {
                let mut token: Vec<u8> = Vec::new();
                push_str(&mut token, "Bearer ");
                push_str(&mut token, ep.api_key.as_str());
                out.push((String::from_str("authorization"), token));
            },
        }
        proof {
            assert(headers_view(out@) =~= auth_headers(true, ep.api_key@, protocol, cv));
        }
    } else {
        let mut has_version = false;
        let mut i: usize = 0;
        while i < client.len()
            invariant
                i <= client.len(),
                cv == headers_view(client@),
                headers_view(out@) == key_headers(cv.take(i as int)),
                has_version == has_version_header(cv.take(i as int)),
            decreases client.len() - i,
        {
            let (is_key, is_version, _) = classify(&client[i].0);
            proof {
                assert(cv.take(i + 1).drop_last() =~= cv.take(i as int));
                assert(cv.take(i + 1).last() == (client@[i as int].0@, client@[i as int].1@));
            }
            if is_key {
                out.push(copy_header(&client[i]));
            }
            proof {
                assert(headers_view(out@) =~= key_headers(cv.take(i + 1)));
                if has_version_header(cv.take(i + 1)) && !is_version {
                    let k = choose|k: int|
                        0 <= k < i + 1 && is_version_header(#[trigger] cv.take(i + 1)[k].0);
                    assert(k < i);
                    assert(cv.take(i as int)[k] == cv.take(i + 1)[k]);
                }
                if has_version_header(cv.take(i as int)) {
                    let k = choose|k: int|
                        0 <= k < i && is_version_header(#[trigger] cv.take(i as int)[k].0);
                    assert(cv.take(i as int)[k] == cv.take(i + 1)[k]);
                }
                if is_version {
                    assert(is_version_header(cv.take(i + 1)[i as int].0));
                }
            }
            has_version = has_version || is_version;
            i += 1;
        }
        proof {
            assert(cv.take(client.len() as int) =~= cv);
        }
        if protocol == Protocol::Anthropic && !has_version {
            out.push(literal_header("anthropic-version", "2023-06-01"));
        }
        proof {
            assert(headers_view(out@) =~= auth_headers(false, ep.api_key@, protocol, cv));
        }
    }
    let ghost auth = headers_view(out@);
    let mut i: usize = 0;
    while i < client.len()
        invariant
            i <= client.len(),
            cv == headers_view(client@),
            headers_view(out@) == auth + copied_headers(cv.take(i as int)),
        decreases client.len() - i,
    {
        let (_, _, withheld) = classify(&client[i].0);
        proof {
            assert(cv.take(i + 1).drop_last() =~= cv.take(i as int));
            assert(cv.take(i + 1).last() == (client@[i as int].0@, client@[i as int].1@));
        }
        let ghost before = out@;
        if !withheld {
            out.push(copy_header(&client[i]));
            proof {
                assert(headers_view(out@) =~= headers_view(before).push(cv[i as int]));
                assert((auth + copied_headers(cv.take(i as int))).push(cv[i as int]) =~= auth
                    + copied_headers(cv.take(i as int)).push(cv[i as int]));
            }
        }
        proof {
            assert(headers_view(out@) =~= auth + copied_headers(cv.take(i + 1)));
        }
        i += 1;
    }
    proof {
        assert(cv.take(client.len() as int) =~= cv);
    }
    out.push(literal_header("content-type", "application/json"));
    proof {
        assert(headers_view(out@) =~= request_headers(configured, ep.api_key@, protocol, cv));
    }
    out
}

/// An override endpoint whose key is empty sends the client's key headers,
/// exactly as a pass-through endpoint does.
pub proof fn law_empty_key_is_passthrough(ep: Endpoint, other: Endpoint)
    requires
        ep.key_mode == KeyMode::Override,
        ep.api_key@.len() == 0,
        other.key_mode == KeyMode::Passthrough,
    ensures
        forall|p: Protocol, client: Seq<(Seq<char>, Seq<u8>)>|
            #![trigger request_headers(uses_configured_key(ep), ep.api_key@, p, client)]
            request_headers(uses_configured_key(ep), ep.api_key@, p, client) == request_headers(
                uses_configured_key(other),
                other.api_key@,
                p,
                client,
            ),
{
}

/// Every client key header is among `key_headers`.
proof fn lemma_key_headers_keep(h: Seq<(Seq<char>, Seq<u8>)>, i: int)
    requires
        0 <= i < h.len(),
        is_key_header(h[i].0),
    ensures
        key_headers(h).contains(h[i]),
    decreases h.len(),
{
    let init = h.drop_last();
    if i < h.len() - 1 {
        assert(init[i] == h[i]);
        lemma_key_headers_keep(init, i);
        let k = choose|k: int| 0 <= k < key_headers(init).len() && key_headers(init)[k] == h[i];
        if is_key_header(h.last().0) {
            assert(key_headers(h)[k] == h[i]);
        }
    } else {
        let n = key_headers(init).len() as int;
        assert(key_headers(h)[n] == h[i]);
    }
}

/// Every client header that is not withheld is among `copied_headers`.
proof fn lemma_copied_keep(h: Seq<(Seq<char>, Seq<u8>)>, i: int)
    requires
        0 <= i < h.len(),
        !is_withheld_header(h[i].0),
    ensures
        copied_headers(h).contains(h[i]),
    decreases h.len(),
{
    let init = h.drop_last();
    if i < h.len() - 1 {
        assert(init[i] == h[i]);
        lemma_copied_keep(init, i);
        let k = choose|k: int| 0 <= k < copied_headers(init).len() && copied_headers(init)[k] == h[i];
        if !is_withheld_header(h.last().0) {
            assert(copied_headers(h)[k] == h[i]);
        }
    } else {
        let n = copied_headers(init).len() as int;
        assert(copied_headers(h)[n] == h[i]);
    }
}

/// Without a configured key the client's key headers go upstream as they
/// are, for every protocol; in any mode every client header that is not a
/// key, version or connection header goes upstream as it is; and the last
/// header is always `content-type: application/json`.
pub proof fn law_client_headers_pass(
    configured: bool,
    key: Seq<char>,
    p: Protocol,
    client: Seq<(Seq<char>, Seq<u8>)>,
)
    ensures
        forall|i: int|
            0 <= i < client.len() && is_key_header(#[trigger] client[i].0) ==> request_headers(
                false,
                key,
                p,
                client,
            ).contains(client[i]),
        forall|i: int|
            0 <= i < client.len() && !is_withheld_header(#[trigger] client[i].0)
                ==> request_headers(configured, key, p, client).contains(client[i]),
        request_headers(configured, key, p, client).last() == ("content-type"@, encode_utf8(
            "application/json"@,
        )),
{
    assert forall|i: int| 0 <= i < client.len() && is_key_header(#[trigger] client[i].0) implies request_headers(
        false,
        key,
        p,
        client,
    ).contains(client[i]) by {
        lemma_key_headers_keep(client, i);
        let kh = key_headers(client);
        let k = choose|k: int| 0 <= k < kh.len() && kh[k] == client[i];
        let auth = auth_headers(false, key, p, client);
        assert(auth[k] == kh[k]);
        assert(request_headers(false, key, p, client)[k] == client[i]);
    }
    assert forall|i: int| 0 <= i < client.len() && !is_withheld_header(#[trigger] client[i].0)
        implies request_headers(configured, key, p, client).contains(client[i]) by {
        lemma_copied_keep(client, i);
        let ch = copied_headers(client);
        let k = choose|k: int| 0 <= k < ch.len() && ch[k] == client[i];
        let auth = auth_headers(configured, key, p, client);
        assert(request_headers(configured, key, p, client)[auth.len() + k] == client[i]);
    }
}

/// No copied header is a withheld one.
proof fn lemma_copied_not_withheld(h: Seq<(Seq<char>, Seq<u8>)>)
    ensures
        forall|i: int|
            0 <= i < copied_headers(h).len() ==> !is_withheld_header(
                #[trigger] copied_headers(h)[i].0,
            ),
    decreases h.len(),
{
    if h.len() > 0 {
        let init = h.drop_last();
        lemma_copied_not_withheld(init);
        let c = copied_headers(h);
        let ci = copied_headers(init);
        assert forall|i: int| 0 <= i < c.len() implies !is_withheld_header(#[trigger] c[i].0) by {
            if i < ci.len() {
                assert(c[i] == ci[i]);
            }
        }
    }
}

/// With a configured key, the only headers upstream that carry a key are
/// the configured ones: every `authorization` or `x-api-key` header sent
/// holds the configured key (as a bearer token for OpenAI and Responses),
/// whatever key headers the client sent.
pub proof fn law_configured_key_replaces_client_key(
    key: Seq<char>,
    p: Protocol,
    client: Seq<(Seq<char>, Seq<u8>)>,
)
    ensures
        forall|i: int|
            0 <= i < request_headers(true, key, p, client).len() && is_key_header(
                #[trigger] request_headers(true, key, p, client)[i].0,
            ) ==> request_headers(true, key, p, client)[i].1 == if p == Protocol::Anthropic {
                encode_utf8(key)
            } else {
                encode_utf8("Bearer "@) + encode_utf8(key)
            },
{
    reveal_strlit("authorization");
    reveal_strlit("x-api-key");
    reveal_strlit("anthropic-version");
    reveal_strlit("content-type");
    lemma_copied_not_withheld(client);
    let auth = auth_headers(true, key, p, client);
    let copied = copied_headers(client);
    let all = request_headers(true, key, p, client);
    assert forall|i: int| 0 <= i < all.len() && is_key_header(#[trigger] all[i].0) implies all[i].1
        == if p == Protocol::Anthropic {
        encode_utf8(key)
    } else {
        encode_utf8("Bearer "@) + encode_utf8(key)
    } by {
        if i < auth.len() {
            if p == Protocol::Anthropic && i == 1 {
                assert(all[i].0 == "anthropic-version"@);
                assert(!eq_ascii_folded(all[i].0, "authorization"@));
                assert(!eq_ascii_folded(all[i].0, "x-api-key"@));
            }
        } else if i < auth.len() + copied.len() {
            assert(all[i] == copied[i - auth.len()]);
        } else {
            assert(all[i].0 == "content-type"@);
            assert(!eq_ascii_folded(all[i].0, "authorization"@));
            assert(!eq_ascii_folded(all[i].0, "x-api-key"@));
        }
    }
}

// ---------------------------------------------------------------------------
// Reply headers
// ---------------------------------------------------------------------------

/// Reply headers that describe the upstream connection and are not passed
/// on to the client.
pub open spec fn is_connection_header(n: Seq<char>) -> bool {
    ||| eq_ascii_folded(n, "content-length"@)
    ||| eq_ascii_folded(n, "connection"@)
    ||| eq_ascii_folded(n, "transfer-encoding"@)
    ||| eq_ascii_folded(n, "content-encoding"@)
}

/// Whether a reply header named `name` is passed on to the client.
pub fn keep_reply_header(name: &str) -> (r: bool)
    ensures
        r == !is_connection_header(name@),
{
    let n = chars_of(name);
    !(name_is(&n, &chars_of("content-length")) || name_is(&n, &chars_of("connection"))
        || name_is(&n, &chars_of("transfer-encoding")) || name_is(
        &n,
        &chars_of("content-encoding"),
    ))
}

/// A reply is an event stream when its `content-type` (readable as text)
/// contains `text/event-stream`.
pub open spec fn is_event_stream_type(content_type: Option<Seq<char>>) -> bool {
    match content_type {
        Some(t) => contains_seq(t, "text/event-stream"@),
        None => false,
    }
}

/// Whether a reply with this `content-type` is an event stream.
pub fn is_event_stream(content_type: Option<&str>) -> (r: bool)
    ensures
        r == is_event_stream_type(match content_type {
            Some(t) => Some(t@),
            None => None,
        }),
{
    match content_type {
        Some(t) => contains_chars(&chars_of(t), &chars_of("text/event-stream")),
        None => false,
    }
}

// ---------------------------------------------------------------------------
// Reading reply bodies
// ---------------------------------------------------------------------------

/// What `String::from_utf8_lossy` makes of `bytes`.
pub uninterp spec fn utf8_lossy(bytes: Seq<u8>) -> Seq<char>;

/// Decodes `bytes` with `String::from_utf8_lossy`, which puts U+FFFD in
/// place of invalid sequences. Believed: the result is the named
/// `utf8_lossy` of `bytes`, and for valid UTF-8 it is the decoded text, as
/// the standard library's documentation says.
#[verifier::external_body]
fn lossy_text(bytes: &[u8]) -> (r: String)
    ensures
        r@ == utf8_lossy(bytes@),
        vstd::utf8::valid_utf8(bytes@) ==> r@ == vstd::utf8::decode_utf8(bytes@),
{
    String::from_utf8_lossy(bytes).into_owned()
}

/// The bytes of each chunk.
pub open spec fn chunk_views(cs: Seq<Vec<u8>>) -> Seq<Seq<u8>> {
    cs.map_values(|c: Vec<u8>| c@)
}

/// The chunks decoded one by one and joined.
pub open spec fn chunks_text(chunks: Seq<Seq<u8>>) -> Seq<char>
    decreases chunks.len(),
{
    if chunks.len() == 0 {
        Seq::empty()
    } else {
        chunks_text(chunks.drop_last()) + utf8_lossy(chunks.last())
    }
}

/// The chunks joined.
pub open spec fn joined(chunks: Seq<Seq<u8>>) -> Seq<u8>
    decreases chunks.len(),
{
    if chunks.len() == 0 {
        Seq::empty()
    } else {
        joined(chunks.drop_last()) + chunks.last()
    }
}

/// Appends the characters of `s` to `out`.
fn append_chars(out: &mut Vec<char>, s: &str)
    ensures
        final(out)@ == old(out)@ + s@,
{
    for c in it: s.chars()
        invariant
            out@ == old(out)@ + it.seq().take(it.index() as int),
            it.seq() == s@,
    {
        out.push(c);
        proof {
            assert(it.seq().take(it.index() + 1) =~= it.seq().take(it.index() as int).push(c));
        }
    }
    proof {
        assert(s@.take(s@.len() as int) =~= s@);
    }
}

/// The chunks decoded one by one and joined.
pub fn text_of_chunks(chunks: &Vec<Vec<u8>>) -> (r: Vec<char>)
    ensures
        r@ == chunks_text(chunk_views(chunks@)),
{
    let ghost cv = chunk_views(chunks@);
    let mut text: Vec<char> = Vec::new();
    let mut i: usize = 0;
    while i < chunks.len()
        invariant
            i <= chunks.len(),
            cv == chunk_views(chunks@),
            text@ == chunks_text(cv.take(i as int)),
        decreases chunks.len() - i,
    {
        let part = lossy_text(chunks[i].as_slice());
        append_chars(&mut text, part.as_str());
        proof {
            assert(cv.take(i + 1).drop_last() =~= cv.take(i as int));
            assert(cv.take(i + 1).last() == chunks@[i as int]@);
        }
        i += 1;
    }
    proof {
        assert(cv.take(chunks.len() as int) =~= cv);
    }
    text
}

/// The chunks joined into one body.
pub fn concat_chunks(chunks: &Vec<Vec<u8>>) -> (r: Vec<u8>)
    ensures
        r@ == joined(chunk_views(chunks@)),
{
    let ghost cv = chunk_views(chunks@);
    let mut out: Vec<u8> = Vec::new();
    let mut i: usize = 0;
    while i < chunks.len()
        invariant
            i <= chunks.len(),
            cv == chunk_views(chunks@),
            out@ == joined(cv.take(i as int)),
        decreases chunks.len() - i,
    {
        push_bytes(&mut out, chunks[i].as_slice());
        proof {
            assert(cv.take(i + 1).drop_last() =~= cv.take(i as int));
            assert(cv.take(i + 1).last() == chunks@[i as int]@);
        }
        i += 1;
    }
    proof {
        assert(cv.take(chunks.len() as int) =~= cv);
    }
    out
}

/// The code that a read `error.code` field gives: the number itself, or a
/// string read as `str::parse::<i64>` reads it; nothing otherwise.
pub open spec fn code_of_field(f: Option<CodeFieldView>) -> Option<i64> {
    match f {
        Some(CodeFieldView::Int(n)) => Some(n),
        Some(CodeFieldView::Text(s)) => parse_i64_spec(s),
        _ => None,
    }
}

/// What an `error.code` field read from a `data:` payload says: `Some` of
/// the code a number or string gives, nothing for any other field.
pub open spec fn verdict_of_field(f: Option<CodeFieldView>) -> Option<Option<i64>> {
    match f {
        Some(CodeFieldView::Int(n)) => Some(Some(n)),
        Some(CodeFieldView::Text(s)) => Some(parse_i64_spec(s)),
        _ => None,
    }
}

/// The payload of a `data:` line: every leading `data:` removed, then
/// trimmed; none for other lines.
pub open spec fn data_payload(line: Seq<char>) -> Option<Seq<char>> {
    if starts_with(line, "data:"@) {
        Some(trim(strip_all_prefix(line, "data:"@)))
    } else {
        None
    }
}

/// What one event-stream line says of the error code: nothing (`None`)
/// unless it is a `data:` line whose payload is JSON with a number or
/// string `error.code`; then `Some` of the code that field gives.
pub open spec fn line_code(line: Seq<char>) -> Option<Option<i64>> {
    match data_payload(line) {
        Some(p) => verdict_of_field(json_text_scalar_at(p, "error"@, "code"@)),
        None => None,
    }
}

/// The code that a read `error.code` field gives.
pub fn code_of(field: Option<CodeField>) -> (r: Option<i64>)
    ensures
        r == code_of_field(code_field_view(field)),
{
    match field {
        Some(CodeField::Int(n)) => Some(n),
        Some(CodeField::Text(s)) => {
            let sv = chars_of(s.as_str());
            proof {
                assert(sv@.subrange(0, sv@.len() as int) =~= s@);
            }
            parse_i64(&sv, 0, sv.len())
        },
        _ => None,
    }
}

/// What an `error.code` field read from a `data:` payload says.
pub fn line_verdict(field: Option<CodeField>) -> (r: Option<Option<i64>>)
    ensures
        r == verdict_of_field(code_field_view(field)),
{
    match field {
        Some(CodeField::Int(n)) => Some(Some(n)),
        Some(CodeField::Text(s)) => {
            let sv = chars_of(s.as_str());
            proof {
                assert(sv@.subrange(0, sv@.len() as int) =~= s@);
            }
            Some(parse_i64(&sv, 0, sv.len()))
        },
        _ => None,
    }
}

/// The payload of the line `text[lo..hi]` if it is a `data:` line.
pub fn line_payload(text: &Vec<char>, lo: usize, hi: usize) -> (r: Option<Vec<char>>)
    requires
        lo <= hi <= text.len(),
    ensures
        match r {
            Some(p) => data_payload(text@.subrange(lo as int, hi as int)) == Some(p@),
            None => data_payload(text@.subrange(lo as int, hi as int)) is None,
        },
{
    let data = chars_of("data:");
    proof {
        reveal_strlit("data:");
    }
    if starts_with_at(text, lo, hi, &data) {
        let after = skip_all_prefix(text, lo, hi, &data);
        let (a, b) = trim_bounds(text, after, hi);
        Some(copy_range(text, a, b))
    } else {
        None
    }
}

/// The code of the first line that says something of it.
pub open spec fn first_line_code(lines: Seq<Seq<char>>) -> Option<i64>
    decreases lines.len(),
{
    if lines.len() == 0 {
        None
    } else {
        match line_code(lines[0]) {
            Some(r) => r,
            None => first_line_code(lines.drop_first()),
        }
    }
}

/// The business error code in an event-stream text.
pub open spec fn stream_error_code(text: Seq<char>) -> Option<i64> {
    first_line_code(lines_of(text))
}

/// The business error code in an event-stream text.
pub fn error_code_in_stream(text: &Vec<char>) -> (r: Option<i64>)
    ensures
        r == stream_error_code(text@),
{
    let n = text.len();
    proof {
        assert(text@.subrange(0, n as int) =~= text@);
    }
    let mut pos: usize = 0;
    while pos < n
        invariant
            pos <= n == text.len(),
            stream_error_code(text@) == first_line_code(lines_of(text@.subrange(pos as int, n as int))),
        decreases n - pos,
    {
        let ghost rest = text@.subrange(pos as int, n as int);
        let (line_end, next) = match find_char(text, pos, n, '\n') {
            Some(e) => {
                if e > pos && text[e - 1] == '\r' {
                    (e - 1, e + 1)
                } else {
                    (e, e + 1)
                }
            },
            None => (n, n),
        };
        let ghost line = text@.subrange(pos as int, line_end as int);
        proof {
            if next < n || line_end < n {
                let i = (next - 1 - pos) as int;
                lemma_first_index_some(rest, '\n');
                assert(first_index_of(rest, '\n') == Some(i));
                assert(strip_cr(rest.take(i)) =~= line);
                assert(rest.skip(i + 1) =~= text@.subrange(next as int, n as int));
                assert(lines_of(rest) == seq![line] + lines_of(text@.subrange(next as int, n as int)));
            } else {
                assert(first_index_of(rest, '\n') is None);
                assert(rest =~= line);
                assert(lines_of(rest) == seq![line]);
                assert(text@.subrange(next as int, n as int) =~= Seq::<char>::empty());
            }
            let tail = lines_of(text@.subrange(next as int, n as int));
            assert((seq![line] + tail)[0] == line);
            assert((seq![line] + tail).drop_first() =~= tail);
        }
        match line_payload(text, pos, line_end) {
            Some(payload) => {
                match line_verdict(scalar_in_json_text(&payload, "error", "code")) {
                    Some(code) => {
                        return code;
                    },
                    None => {},
                }
            },
            None => {},
        }
        pos = next;
    }
    None
}

/// A reply body as far as it has been read: whole, as the first chunks of
/// an event stream, or not at all.
pub enum LoadedBody {
    Whole(Vec<u8>),
    Chunks(Vec<Vec<u8>>),
    Unread,
}

/// The business error code of a reply body: for a whole body its JSON
/// `error.code`; for the first chunks of an event stream the code of the
/// first `data:` line that has one; none for an unread body.
pub open spec fn body_error_code(b: LoadedBody) -> Option<i64> {
    match b {
        LoadedBody::Whole(bytes) => code_of_field(json_scalar_at(bytes@, "error"@, "code"@)),
        LoadedBody::Chunks(cs) => stream_error_code(chunks_text(chunk_views(cs@))),
        LoadedBody::Unread => None,
    }
}

impl LoadedBody {
    /// The business error code in what has been read of the reply.
    pub fn extract_error_code(&self) -> (r: Option<i64>)
        ensures
            r == body_error_code(*self),
    {
        match self {
            LoadedBody::Whole(bytes) => code_of(scalar_in_json_bytes(bytes.as_slice(), "error", "code")),
            LoadedBody::Chunks(cs) => {
                let text = text_of_chunks(cs);
                error_code_in_stream(&text)
            },
            LoadedBody::Unread => None,
        }
    }
}

// ---------------------------------------------------------------------------
// How far an event stream is read ahead
// ---------------------------------------------------------------------------

/// At most this many chunks of an event stream are read ahead.
pub open spec fn preload_limit() -> nat {
    16
}

/// The text read so far settles the question: it holds an error event
/// (`event: error` with `"error":` and `"code":`), or a content event.
pub open spec fn preload_settled(text: Seq<char>) -> bool {
    ||| (contains_seq(text, "event: error"@) && contains_seq(text, "\"error\":"@)
        && contains_seq(text, "\"code\":"@))
    ||| contains_seq(text, "response.output_text"@)
    ||| contains_seq(text, "response.completed"@)
    ||| contains_seq(text, "response.output_item"@)
}

/// Whether the text read so far settles the question.
pub fn is_settled(text: &Vec<char>) -> (r: bool)
    ensures
        r == preload_settled(text@),
{
    (contains_chars(text, &chars_of("event: error")) && contains_chars(
        text,
        &chars_of("\"error\":"),
    ) && contains_chars(text, &chars_of("\"code\":"))) || contains_chars(
        text,
        &chars_of("response.output_text"),
    ) || contains_chars(text, &chars_of("response.completed")) || contains_chars(
        text,
        &chars_of("response.output_item"),
    )
}

/// At most this many bytes of an event stream are held from reading ahead:
/// no chunk is asked for once 64KB are held.
pub open spec fn preload_byte_limit() -> nat {
    65536
}

/// The bytes held after taking in `len` more, counted up to the limit.
pub open spec fn held_after(held: nat, len: nat) -> nat {
    if held + len >= preload_byte_limit() {
        preload_byte_limit()
    } else {
        held + len
    }
}

/// The text of the chunks of an event stream read so far.
pub struct PreloadScan {
    text: Vec<char>,
    count: usize,
    bytes: usize,
}

impl PreloadScan {
    /// The decoded text of the chunks read so far.
    pub closed spec fn text(&self) -> Seq<char> {
        self.text@
    }

    /// How many chunks have been read.
    pub closed spec fn count(&self) -> nat {
        self.count as nat
    }

    /// How many bytes the chunks read hold, counted up to the byte limit.
    pub closed spec fn held(&self) -> nat {
        self.bytes as nat
    }

    /// Nothing read yet.
    pub fn new() -> (r: Self)
        ensures
            r.text() == Seq::<char>::empty(),
            r.count() == 0,
            r.held() == 0,
    {
        PreloadScan { text: Vec::new(), count: 0, bytes: 0 }
    }

    /// How many chunks have been read.
    pub fn chunks_read(&self) -> (r: usize)
        ensures
            r == self.count(),
    {
        self.count
    }

    /// Takes in the next chunk; says whether to read another: not once the
    /// text is settled, nor after the sixteenth chunk, nor once 64KB are
    /// held.
    pub fn push_chunk(&mut self, chunk: &[u8]) -> (more: bool)
        requires
            old(self).count() < preload_limit(),
        ensures
            final(self).text() == old(self).text() + utf8_lossy(chunk@),
            final(self).count() == old(self).count() + 1,
            final(self).held() == held_after(old(self).held(), chunk@.len()),
            more == (!preload_settled(final(self).text()) && final(self).count()
                < preload_limit() && final(self).held() < preload_byte_limit()),
    {
        let part = lossy_text(chunk);
        append_chars(&mut self.text, part.as_str());
        self.count = self.count + 1;
        if self.bytes >= 65536 || chunk.len() >= 65536 - self.bytes {
            self.bytes = 65536;
        } else {
            self.bytes = self.bytes + chunk.len();
        }
        let settled = is_settled(&self.text);
        !settled && self.count < 16 && self.bytes < 65536
    }
}

} // verus!
