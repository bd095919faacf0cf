//! What the proxy does with a client request before the retry loop: pick
//! the protocol from the path, read the model from the body, find the first
//! provider endpoint that serves that model, and map the model name.
use vstd::prelude::*;
use vstd::utf8::encode_utf8;
use crate::config::{
    mapped_model, merged, prefer, section_resolves_to, Config, Endpoint, EndpointRaw, Provider,
};
use crate::json::{
    json_reencoded, json_string_member, json_with_string_member, model_field_view,
    reencode_json, set_string_member_in_json, string_member_in_json,
};
use crate::protocol::{path_protocol, Protocol};
use crate::cleaning::{clean_request_body, cleaned_body};
use crate::text::{push_bytes, push_str};

verus! {

/// The endpoint section of a provider for a protocol.
pub open spec fn section_for(p: Provider, protocol: Protocol) -> Option<EndpointRaw> {
    match protocol {
        Protocol::OpenAI => p.openai,
        Protocol::Anthropic => p.anthropic,
        Protocol::Responses => p.responses,
    }
}

/// The model list an endpoint section ends up with.
pub open spec fn section_models(p: Provider, raw: EndpointRaw) -> Seq<String> {
    match prefer(raw.models, p.common.models) {
        Some(m) => m@,
        None => Seq::empty(),
    }
}

/// The provider has an endpoint (with a `base_url`) for the protocol whose
/// model list names `model`.
pub open spec fn serves(p: Provider, protocol: Protocol, model: Seq<char>) -> bool {
    &&& section_for(p, protocol) matches Some(raw)
    &&& raw.base_url is Some
    &&& exists|k: int|
        0 <= k < section_models(p, raw).len() && #[trigger] section_models(p, raw)[k]@ == model
}

/// `i` is the first provider that serves the model.
pub open spec fn first_server(ps: Seq<Provider>, protocol: Protocol, model: Seq<char>, i: int) -> bool {
    &&& 0 <= i < ps.len()
    &&& serves(ps[i], protocol, model)
    &&& forall|j: int| 0 <= j < i ==> !serves(#[trigger] ps[j], protocol, model)
}

/// `e` is the endpoint of the first provider that serves the model.
pub open spec fn picked(ps: Seq<Provider>, protocol: Protocol, model: Seq<char>, e: Endpoint) -> bool {
    exists|i: int|
        #[trigger] first_server(ps, protocol, model, i) && merged(
            ps[i].common,
            section_for(ps[i], protocol)->0,
            e,
        )
}

/// The merged endpoint of a provider for a protocol.
pub fn endpoint_for(p: &Provider, protocol: Protocol) -> (r: Option<Endpoint>)
    ensures
        section_resolves_to(p.common, section_for(*p, protocol), r),
{
    match protocol {
        Protocol::OpenAI => p.openai_endpoint(),
        Protocol::Anthropic => p.claude_endpoint(),
        Protocol::Responses => p.responses_endpoint(),
    }
}

fn lists_model(models: &Vec<String>, model: &str) -> (r: bool)
    ensures
        r == exists|k: int| 0 <= k < models@.len() && #[trigger] models@[k]@ == model@,
{
    let m = model.to_owned();
    let mut i: usize = 0;
    while i < models.len()
        invariant
            m@ == model@,
            i <= models.len(),
            forall|k: int| 0 <= k < i ==> #[trigger] models@[k]@ != model@,
        decreases models.len() - i,
    {
        if models[i] == m {
            proof {
                assert(models@[i as int]@ == model@);
            }
            return true;
        }
        i += 1;
    }
    false
}

/// The merged endpoint of the first provider, in file order, that has an
/// endpoint for `protocol` listing `model`.
pub fn pick_endpoint(cfg: &Config, protocol: Protocol, model: &str) -> (r: Option<Endpoint>)
    ensures
        match r {
            Some(e) => picked(cfg.provider@, protocol, model@, e),
            None => forall|i: int|
                0 <= i < cfg.provider@.len() ==> !serves(#[trigger] cfg.provider@[i], protocol, model@),
        },
{
    let ghost ps = cfg.provider@;
    let mut i: usize = 0;
    while i < cfg.provider.len()
        invariant
            ps == cfg.provider@,
            i <= ps.len(),
            forall|j: int| 0 <= j < i ==> !serves(#[trigger] ps[j], protocol, model@),
        decreases ps.len() - i,
    {
        let p = &cfg.provider[i];
        match endpoint_for(p, protocol) {
            Some(ep) => {
                if lists_model(&ep.models, model) {
                    proof {
                        let raw = section_for(ps[i as int], protocol)->0;
                        assert(ep.models@ == section_models(ps[i as int], raw));
                        let k = choose|k: int|
                            0 <= k < ep.models@.len() && #[trigger] ep.models@[k]@ == model@;
                        assert(section_models(ps[i as int], raw)[k]@ == model@);
                        assert(serves(ps[i as int], protocol, model@));
                        assert(first_server(ps, protocol, model@, i as int));
                    }
                    return Some(ep);
                }
            },
            None => {},
        }
        i += 1;
    }
    None
}

// ---------------------------------------------------------------------------
// Rejections
// ---------------------------------------------------------------------------

/// The JSON body of a reply that the proxy itself gives.
pub open spec fn proxy_error_body(message: Seq<u8>) -> Seq<u8> {
    encode_utf8("{\"error\":{\"message\":\""@) + message + encode_utf8(
        "\",\"type\":\"proxy_error\"}}"@,
    )
}

/// The JSON body of a reply that the proxy itself gives, with `message`.
pub fn error_body(message: &str) -> (r: Vec<u8>)
    ensures
        r@ == proxy_error_body(encode_utf8(message@)),
{
    let mut out: Vec<u8> = Vec::new();
    push_str(&mut out, "{\"error\":{\"message\":\"");
    push_str(&mut out, message);
    push_str(&mut out, "\",\"type\":\"proxy_error\"}}");
    proof {
        assert(out@ =~= proxy_error_body(encode_utf8(message@)));
    }
    out
}

/// A protocol's name as `Debug` prints it.
pub open spec fn protocol_name(p: Protocol) -> Seq<char> {
    match p {
        Protocol::OpenAI => "OpenAI"@,
        Protocol::Anthropic => "Anthropic"@,
        Protocol::Responses => "Responses"@,
    }
}

fn protocol_debug_name(p: Protocol) -> (r: &'static str)
    ensures
        r@ == protocol_name(p),
{
    match p {
        Protocol::OpenAI => "OpenAI",
        Protocol::Anthropic => "Anthropic",
        Protocol::Responses => "Responses",
    }
}

/// The message when no endpoint serves the model.
pub open spec fn no_endpoint_message(p: Protocol, model: Seq<char>) -> Seq<u8> {
    encode_utf8("未找到匹配的渠道：协议 "@) + encode_utf8(protocol_name(p)) + encode_utf8("，模型 "@)
        + encode_utf8(model)
}

// ---------------------------------------------------------------------------
// Routing a request
// ---------------------------------------------------------------------------

/// The model a request names: its `model` string, or empty.
pub open spec fn request_model(m: Option<Seq<char>>) -> Seq<char> {
    match m {
        Some(s) => s,
        None => Seq::empty(),
    }
}

/// What becomes of a client request, before its body is rewritten.
pub enum RoutePlan {
    /// Answer at once with this status and JSON body.
    Reject { status: u16, body: Vec<u8> },
    /// Send the request upstream to `endpoint` with `protocol`, its `model`
    /// replaced by `model` when that is set.
    Forward { protocol: Protocol, endpoint: Endpoint, model: Option<String> },
}

/// `r` is the plan for a request with `path` whose body read at `model`
/// gave `field` (`None`: the body is not JSON; `Some(None)`: no `model`
/// string, which reads as empty):
/// - 404 when the path selects no protocol;
/// - 400 when the body is not JSON;
/// - 404 when no provider has an endpoint for the protocol listing the
///   model;
/// - otherwise the first such endpoint, with the model replaced when the
///   endpoint maps it to another name.
pub open spec fn plans(
    cfg: Config,
    path: Seq<char>,
    field: Option<Option<Seq<char>>>,
    r: RoutePlan,
) -> bool {
    match path_protocol(path) {
        None => {
            &&& r is Reject
            &&& r->Reject_status == 404
            &&& r->Reject_body@ == proxy_error_body(encode_utf8("不支持的请求路径"@))
        },
        Some(protocol) => match field {
            None => {
                &&& r is Reject
                &&& r->Reject_status == 400
                &&& r->Reject_body@ == proxy_error_body(encode_utf8("请求 body 不是合法 JSON"@))
            },
            Some(m) => {
                let model = request_model(m);
                if forall|i: int|
                    0 <= i < cfg.provider@.len() ==> !serves(
                        #[trigger] cfg.provider@[i],
                        protocol,
                        model,
                    ) {
                    &&& r is Reject
                    &&& r->Reject_status == 404
                    &&& r->Reject_body@ == proxy_error_body(no_endpoint_message(protocol, model))
                } else {
                    let upstream = mapped_model(r->Forward_endpoint.model_map@, model);
                    &&& r is Forward
                    &&& r->Forward_protocol == protocol
                    &&& picked(cfg.provider@, protocol, model, r->Forward_endpoint)
                    &&& if upstream != model {
                        r->Forward_model matches Some(u) && u@ == upstream
                    } else {
                        r->Forward_model is None
                    }
                }
            },
        },
    }
}

/// Plans what becomes of a request with `path` whose body read at `model`
/// gave `field`.
pub fn plan_route(cfg: &Config, path: &str, field: Option<Option<String>>) -> (r: RoutePlan)
    ensures
        plans(*cfg, path@, model_field_view(field), r),
{
    let protocol = match Protocol::from_path(path) {
        Some(p) => p,
        None => {
            return RoutePlan::Reject { status: 404, body: error_body("不支持的请求路径") };
        },
    };
    let client_model = match field {
        Some(Some(m)) => m,
        Some(None) => String::new(),
        None => {
            return RoutePlan::Reject { status: 400, body: error_body("请求 body 不是合法 JSON") };
        },
    };
    let endpoint = match pick_endpoint(cfg, protocol, client_model.as_str()) {
        Some(ep) => ep,
        None => {
            let mut msg: Vec<u8> = Vec::new();
            push_str(&mut msg, "{\"error\":{\"message\":\"");
            push_str(&mut msg, "未找到匹配的渠道：协议 ");
            push_str(&mut msg, protocol_debug_name(protocol));
            push_str(&mut msg, "，模型 ");
            push_str(&mut msg, client_model.as_str());
            push_str(&mut msg, "\",\"type\":\"proxy_error\"}}");
            proof {
                assert(msg@ =~= proxy_error_body(no_endpoint_message(protocol, client_model@)));
            }
            return RoutePlan::Reject { status: 404, body: msg };
        },
    };
    let upstream_model = endpoint.map_model(client_model.as_str());
    let model = if upstream_model == client_model {
        None
    } else {
        Some(upstream_model)
    };
    proof {
        if forall|i: int|
            0 <= i < cfg.provider@.len() ==> !serves(
                #[trigger] cfg.provider@[i],
                protocol,
                client_model@,
            ) {
            let i = choose|i: int|
                #[trigger] first_server(cfg.provider@, protocol, client_model@, i) && merged(
                    cfg.provider@[i].common,
                    section_for(cfg.provider@[i], protocol)->0,
                    endpoint,
                );
            assert(serves(cfg.provider@[i], protocol, client_model@));
        }
    }
    RoutePlan::Forward { protocol, endpoint, model }
}

/// What becomes of a client request.
pub enum RouteOutcome {
    /// Answer at once with this status and JSON body.
    Reject { status: u16, body: Vec<u8> },
    /// Send `body` upstream to `endpoint` with `protocol`.
    Forward { protocol: Protocol, endpoint: Endpoint, body: Vec<u8> },
}

/// `r` carries out `plan` for the request body `body`: a rejection as
/// planned; a forward with the body re-encoded, its model replaced when the
/// plan says so.
pub open spec fn carries_out(plan: RoutePlan, body: Seq<u8>, r: RouteOutcome) -> bool {
    match plan {
        RoutePlan::Reject { status, body: b } => r == RouteOutcome::Reject { status, body: b },
        RoutePlan::Forward { protocol, endpoint, model } => {
            &&& r is Forward
            &&& r->Forward_protocol == protocol
            &&& r->Forward_endpoint == endpoint
            &&& r->Forward_body@ == match model {
                Some(m) => json_with_string_member(body, "model"@, m@),
                None => json_reencoded(body),
            }
        },
    }
}

/// The body that a forwarded request starts from: cleaned when
/// `clean_empty_content` is on, else as the client sent it.
pub open spec fn prepared_body(clean: bool, body: Seq<u8>) -> Seq<u8> {
    if clean {
        cleaned_body(body)
    } else {
        body
    }
}

/// Decides what becomes of a client request with `path` and `body`: reads
/// the body's `model`, plans the route, and rewrites the body (cleaned when
/// `[server] clean_empty_content` is on, then with the model mapped).
pub fn route_request(cfg: &Config, path: &str, body: &[u8]) -> (r: RouteOutcome)
    ensures
        exists|plan: RoutePlan|
            plans(*cfg, path@, json_string_member(body@, "model"@), plan) && #[trigger] carries_out(
                plan,
                prepared_body(cfg.server.clean_empty_content, body@),
                r,
            ),
{
    let field = string_member_in_json(body, "model");
    let plan = plan_route(cfg, path, field);
    let ghost g = plan;
    let ghost prepared = prepared_body(cfg.server.clean_empty_content, body@);
    let r = match plan {
        RoutePlan::Reject { status, body: b } => RouteOutcome::Reject { status, body: b },
        RoutePlan::Forward { protocol, endpoint, model } => {
            let base = if cfg.server.clean_empty_content {
                clean_request_body(body)
            } else {
                let mut b: Vec<u8> = Vec::new();
                push_bytes(&mut b, body);
                proof {
                    assert(b@ =~= body@);
                }
                b
            };
            let new_body = match &model {
                Some(m) => set_string_member_in_json(base.as_slice(), "model", m.as_str()),
                None => reencode_json(base.as_slice()),
            };
            RouteOutcome::Forward { protocol, endpoint, body: new_body }
        },
    };
    proof {
        assert(carries_out(g, prepared, r));
    }
    r
}

/// A provider serves a model for a protocol exactly when its merged
/// endpoint for that protocol (the endpoint's own models, else the
/// provider-level ones) lists the model.
pub proof fn law_serves_iff_merged_lists(p: Provider, protocol: Protocol, e: Endpoint, model: Seq<char>)
    requires
        section_for(p, protocol) is Some,
        merged(p.common, section_for(p, protocol)->0, e),
    ensures
        serves(p, protocol, model) <==> exists|k: int|
            0 <= k < e.models@.len() && #[trigger] e.models@[k]@ == model,
{
    let raw = section_for(p, protocol)->0;
    assert(e.models@ == section_models(p, raw));
    if exists|k: int| 0 <= k < e.models@.len() && #[trigger] e.models@[k]@ == model {
        let k = choose|k: int| 0 <= k < e.models@.len() && #[trigger] e.models@[k]@ == model;
        assert(section_models(p, raw)[k]@ == model);
    }
    if serves(p, protocol, model) {
        let k = choose|k: int|
            0 <= k < section_models(p, raw).len() && #[trigger] section_models(p, raw)[k]@ == model;
        assert(e.models@[k]@ == model);
    }
}

/// Some provider at or before `i` is the first to serve the model, when
/// the provider at `i` serves it.
proof fn lemma_first_server_exists(ps: Seq<Provider>, protocol: Protocol, model: Seq<char>, i: int)
    requires
        0 <= i < ps.len(),
        serves(ps[i], protocol, model),
    ensures
        exists|j: int| 0 <= j <= i && #[trigger] first_server(ps, protocol, model, j),
    decreases i,
{
    if exists|j: int| 0 <= j < i && serves(#[trigger] ps[j], protocol, model) {
        let j = choose|j: int| 0 <= j < i && serves(#[trigger] ps[j], protocol, model);
        lemma_first_server_exists(ps, protocol, model, j);
    } else {
        assert(first_server(ps, protocol, model, i));
    }
}

/// When the merged endpoint of some provider for a protocol lists the model,
/// routing finds an endpoint: a provider at or before it is the first to
/// serve the model, so `pick_endpoint` does not give `None`.
pub proof fn law_listed_model_is_routed(
    ps: Seq<Provider>,
    i: int,
    protocol: Protocol,
    e: Endpoint,
    model: Seq<char>,
)
    requires
        0 <= i < ps.len(),
        section_for(ps[i], protocol) is Some,
        merged(ps[i].common, section_for(ps[i], protocol)->0, e),
        exists|k: int| 0 <= k < e.models@.len() && #[trigger] e.models@[k]@ == model,
    ensures
        exists|j: int| 0 <= j <= i && #[trigger] first_server(ps, protocol, model, j),
        !(forall|j: int| 0 <= j < ps.len() ==> !serves(#[trigger] ps[j], protocol, model)),
{
    law_serves_iff_merged_lists(ps[i], protocol, e, model);
    lemma_first_server_exists(ps, protocol, model, i);
}

} // verus!
