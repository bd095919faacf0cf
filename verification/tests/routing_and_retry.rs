use mini_proxy::config::{
    Config, Endpoint, EndpointRaw, KeyMode, LogConfig, PathMode, Provider, ProviderCommon,
    ServerConfig, StatusSpec,
};
use mini_proxy::cleaning::clean_request_body;
use mini_proxy::json::CodeField;
use mini_proxy::model_map::ModelMap;
use mini_proxy::protocol::Protocol;
use mini_proxy::retry::{failure_reply_body, Action, Event, Phase, RetryLoop};
use mini_proxy::server::{error_body, pick_endpoint, plan_route, route_request, RouteOutcome, RoutePlan};
use mini_proxy::text::chars_of;
use mini_proxy::upstream::{
    code_of, concat_chunks, error_code_in_stream, is_event_stream, is_settled, keep_reply_header, line_payload,
    line_verdict, text_of_chunks, upstream_request_headers, upstream_url, LoadedBody, PreloadScan,
};

fn endpoint(base: &str, mode: PathMode, key_mode: KeyMode, key: &str, max_retries: u32) -> Endpoint {
    Endpoint {
        base_url: base.to_string(),
        api_key: key.to_string(),
        key_mode,
        models: vec!["m".to_string()],
        model_map: ModelMap::new(),
        retry_on_status: vec![],
        retry_on_code: vec![],
        max_retries,
        path_mode: mode,
    }
}

fn common() -> ProviderCommon {
    ProviderCommon {
        api_key: None,
        models: None,
        model_map: None,
        max_retries: None,
        retry_on_status: None,
        retry_on_code: None,
        key_mode: None,
        path_mode: None,
    }
}

fn raw(url: &str, models: &[&str]) -> EndpointRaw {
    EndpointRaw {
        base_url: Some(url.to_string()),
        api_key: None,
        models: Some(models.iter().map(|m| m.to_string()).collect()),
        model_map: None,
        max_retries: None,
        retry_on_status: None,
        retry_on_code: None,
        key_mode: None,
        path_mode: None,
    }
}

fn config(providers: Vec<Provider>) -> Config {
    Config {
        server: ServerConfig { listen: "127.0.0.1:7946".to_string(), clean_empty_content: true },
        log: LogConfig {
            level: "info".to_string(),
            format: "pretty".to_string(),
            to_stdout: true,
            to_file: String::new(),
            rotate_size_mb: 50,
            rotate_keep: 7,
        },
        provider: providers,
    }
}

fn header(name: &str, value: &str) -> (String, Vec<u8>) {
    (name.to_string(), value.as_bytes().to_vec())
}

fn names(h: &[(String, Vec<u8>)]) -> Vec<String> {
    h.iter().map(|(n, _)| n.clone()).collect()
}

fn value_of<'a>(h: &'a [(String, Vec<u8>)], name: &str) -> Vec<&'a [u8]> {
    h.iter().filter(|(n, _)| n == name).map(|(_, v)| v.as_slice()).collect()
}

fn text(s: &str) -> String {
    s.to_string()
}

// ---------------------------------------------------------------- protocol

#[test]
fn path_prefix_selects_protocol() {
    assert_eq!(Protocol::from_path("v1/chat/completions"), Some(Protocol::OpenAI));
    assert_eq!(Protocol::from_path("/v1/chat/completions"), Some(Protocol::OpenAI));
    assert_eq!(Protocol::from_path("/v2/v1/messages"), Some(Protocol::Anthropic));
    assert_eq!(Protocol::from_path("//v3/responses"), Some(Protocol::Responses));
    assert_eq!(Protocol::from_path("v10/x"), Some(Protocol::OpenAI));
    assert_eq!(Protocol::from_path("v4/x"), None);
    assert_eq!(Protocol::from_path("/api/v1"), None);
    assert_eq!(Protocol::from_path(""), None);
    assert_eq!(Protocol::from_path("///"), None);
}

#[test]
fn append_suffixes() {
    assert_eq!(Protocol::OpenAI.append_suffix(), "/chat/completions");
    assert_eq!(Protocol::Anthropic.append_suffix(), "/v1/messages");
    assert_eq!(Protocol::Responses.append_suffix(), "/responses");
}

#[test]
fn upstream_urls() {
    let ep = endpoint("https://x.example/v2/", PathMode::Append, KeyMode::Passthrough, "", 0);
    assert_eq!(upstream_url(&ep, Protocol::OpenAI), "https://x.example/v2/chat/completions");
    let ep = endpoint("https://x.example/anthropic//", PathMode::Append, KeyMode::Passthrough, "", 0);
    assert_eq!(upstream_url(&ep, Protocol::Anthropic), "https://x.example/anthropic/v1/messages");
    let ep = endpoint("https://x.example/v1/responses/", PathMode::Full, KeyMode::Passthrough, "", 0);
    assert_eq!(upstream_url(&ep, Protocol::Responses), "https://x.example/v1/responses/");
    let ep = endpoint("https://中文.example", PathMode::Append, KeyMode::Passthrough, "", 0);
    assert_eq!(upstream_url(&ep, Protocol::Responses), "https://中文.example/responses");
}

// ---------------------------------------------------------------- headers

#[test]
fn configured_key_as_bearer_token() {
    let ep = endpoint("u", PathMode::Append, KeyMode::Override, "sk-1", 0);
    let client = vec![
        header("authorization", "Bearer client"),
        header("x-custom", "1"),
        header("host", "localhost"),
        header("content-length", "10"),
    ];
    let h = upstream_request_headers(&ep, Protocol::OpenAI, &client);
    assert_eq!(names(&h), vec!["authorization", "x-custom", "content-type"]);
    assert_eq!(value_of(&h, "authorization"), vec![b"Bearer sk-1".as_slice()]);
    assert_eq!(value_of(&h, "content-type"), vec![b"application/json".as_slice()]);
}

#[test]
fn configured_key_for_anthropic() {
    let ep = endpoint("u", PathMode::Append, KeyMode::Override, "sk-2", 0);
    let client = vec![header("x-api-key", "client"), header("anthropic-version", "2024-01-01")];
    let h = upstream_request_headers(&ep, Protocol::Anthropic, &client);
    assert_eq!(names(&h), vec!["x-api-key", "anthropic-version", "content-type"]);
    assert_eq!(value_of(&h, "x-api-key"), vec![b"sk-2".as_slice()]);
    assert_eq!(value_of(&h, "anthropic-version"), vec![b"2023-06-01".as_slice()]);
}

#[test]
fn empty_configured_key_passes_client_key() {
    let ep = endpoint("u", PathMode::Append, KeyMode::Override, "", 0);
    let client = vec![header("Authorization", "Bearer c"), header("Connection", "keep-alive")];
    let h = upstream_request_headers(&ep, Protocol::OpenAI, &client);
    assert_eq!(names(&h), vec!["Authorization", "content-type"]);
    assert_eq!(value_of(&h, "Authorization"), vec![b"Bearer c".as_slice()]);
}

#[test]
fn passthrough_adds_missing_anthropic_version() {
    let ep = endpoint("u", PathMode::Append, KeyMode::Passthrough, "ignored", 0);
    let client = vec![header("x-api-key", "c"), header("accept", "*/*"), header("transfer-encoding", "chunked")];
    let h = upstream_request_headers(&ep, Protocol::Anthropic, &client);
    assert_eq!(names(&h), vec!["x-api-key", "anthropic-version", "accept", "content-type"]);
    assert_eq!(value_of(&h, "anthropic-version"), vec![b"2023-06-01".as_slice()]);
    // a client that sends its own version: no version is added, and the
    // client's own is not among the copied headers
    let client = vec![header("anthropic-version", "2024-01-01"), header("x-api-key", "c")];
    let h = upstream_request_headers(&ep, Protocol::Anthropic, &client);
    assert_eq!(names(&h), vec!["x-api-key", "content-type"]);
    // OpenAI requests never get a version header
    let client = vec![header("authorization", "Bearer c")];
    let h = upstream_request_headers(&ep, Protocol::OpenAI, &client);
    assert_eq!(names(&h), vec!["authorization", "content-type"]);
}

#[test]
fn reply_headers_passed_on() {
    assert!(!keep_reply_header("content-length"));
    assert!(!keep_reply_header("Connection"));
    assert!(!keep_reply_header("transfer-encoding"));
    assert!(!keep_reply_header("content-encoding"));
    assert!(keep_reply_header("content-type"));
    assert!(keep_reply_header("x-request-id"));
}

// ---------------------------------------------------------------- error codes

#[test]
fn whole_body_error_codes() {
    let code = |s: &str| LoadedBody::Whole(s.as_bytes().to_vec()).extract_error_code();
    assert_eq!(code(r#"{"error":{"code":10007,"message":"busy"}}"#), Some(10007));
    assert_eq!(code(r#"{"error":{"code":"10008"}}"#), Some(10008));
    assert_eq!(code(r#"{"error":{"code":"x1"}}"#), None);
    assert_eq!(code(r#"{"error":{"code":1.5}}"#), None);
    assert_eq!(code(r#"{"error":{"message":"no code"}}"#), None);
    assert_eq!(code(r#"{"code":5}"#), None);
    assert_eq!(code("not json"), None);
    assert_eq!(code(""), None);
    assert_eq!(LoadedBody::Unread.extract_error_code(), None);
}

#[test]
fn code_of_a_field() {
    assert_eq!(code_of(Some(CodeField::Int(-3))), Some(-3));
    assert_eq!(code_of(Some(CodeField::Text(text("+11200")))), Some(11200));
    assert_eq!(code_of(Some(CodeField::Text(text("eleven")))), None);
    assert_eq!(code_of(Some(CodeField::Other)), None);
    assert_eq!(code_of(None), None);
    assert_eq!(line_verdict(Some(CodeField::Text(text("bad")))), Some(None));
    assert_eq!(line_verdict(Some(CodeField::Other)), None);
    assert_eq!(line_verdict(Some(CodeField::Int(1))), Some(Some(1)));
}

#[test]
fn data_line_payloads() {
    let payload = |s: &str| {
        let v = chars_of(s);
        line_payload(&v, 0, v.len()).map(|p| p.into_iter().collect::<String>())
    };
    assert_eq!(payload("data: {\"a\":1}  "), Some(text("{\"a\":1}")));
    assert_eq!(payload("data:data:  x"), Some(text("x")));
    assert_eq!(payload("data:\u{3000}x\t"), Some(text("x")));
    assert_eq!(payload(" data: x"), None);
    assert_eq!(payload("event: error"), None);
    assert_eq!(payload("data:"), Some(text("")));
}

#[test]
fn stream_error_codes() {
    let chunks = |parts: &[&str]| LoadedBody::Chunks(parts.iter().map(|p| p.as_bytes().to_vec()).collect());
    let b = chunks(&["event: error\ndata: {\"error\":{\"code\":11200,\"message\":\"x\"}}\n\n"]);
    assert_eq!(b.extract_error_code(), Some(11200));
    // split across chunks, with CRLF line ends and a repeated prefix
    let b = chunks(&["event: error\r\ndata:data: {\"error\":{\"co", "de\":\"10222\"}}\r\n\r\n"]);
    assert_eq!(b.extract_error_code(), Some(10222));
    // lines without an error code are skipped
    let b = chunks(&["data: {\"type\":\"x\"}\ndata: [DONE]\ndata: {\"error\":{\"code\":7}}"]);
    assert_eq!(b.extract_error_code(), Some(7));
    // a string code that is not a number ends the search with nothing
    let b = chunks(&["data: {\"error\":{\"code\":\"bad\"}}\ndata: {\"error\":{\"code\":9}}\n"]);
    assert_eq!(b.extract_error_code(), None);
    // a code that is neither number nor string is skipped
    let b = chunks(&["data: {\"error\":{\"code\":null}}\ndata: {\"error\":{\"code\":9}}\n"]);
    assert_eq!(b.extract_error_code(), Some(9));
    let b = chunks(&["data: {\"choices\":[]}\n\n"]);
    assert_eq!(b.extract_error_code(), None);
    let b = chunks(&[]);
    assert_eq!(b.extract_error_code(), None);
    let v = chars_of("data: {\"error\":{\"code\":42}}");
    assert_eq!(error_code_in_stream(&v), Some(42));
}

#[test]
fn chunk_text_replaces_invalid_bytes() {
    let t = text_of_chunks(&vec![b"ab".to_vec(), vec![0xff], "中".as_bytes().to_vec()]);
    assert_eq!(t.into_iter().collect::<String>(), "ab\u{FFFD}中");
    let joined = concat_chunks(&vec![b"ab".to_vec(), vec![], b"c".to_vec()]);
    assert_eq!(joined, b"abc".to_vec());
}

#[test]
fn read_ahead_stops_when_settled() {
    let mut scan = PreloadScan::new();
    assert!(scan.push_chunk(b"event: error\n"));
    assert!(scan.push_chunk(b"data: {\"error\":"));
    assert!(!scan.push_chunk(b"{\"code\":10007}}\n"));
    assert_eq!(scan.chunks_read(), 3);
    let mut scan = PreloadScan::new();
    assert!(!scan.push_chunk(b"event: response.output_text.delta\n"));
    let mut scan = PreloadScan::new();
    let mut reads = 0;
    loop {
        reads += 1;
        if !scan.push_chunk(b"data: {}\n") {
            break;
        }
    }
    assert_eq!(reads, 16);
    assert!(is_settled(&chars_of("x response.completed")));
    assert!(!is_settled(&chars_of("event: error \"code\":")));
}

// ---------------------------------------------------------------- retry loop

#[test]
fn success_is_inspected_then_forwarded() {
    let ep = endpoint("u", PathMode::Append, KeyMode::Passthrough, "", 3);
    let mut l = RetryLoop::new(&ep);
    assert_eq!(l.phase(), Phase::Sending);
    assert!(matches!(l.step(Event::Reply { status: 200, is_stream: false }), Action::Inspect));
    assert_eq!(l.phase(), Phase::Inspecting { status: 200 });
    assert!(matches!(l.step(Event::BodyCode { code: None }), Action::Forward));
    assert!(!l.is_waiting());
}

#[test]
fn business_code_is_retried() {
    let ep = endpoint("u", PathMode::Append, KeyMode::Passthrough, "", 3);
    let mut l = RetryLoop::new(&ep);
    assert!(matches!(l.step(Event::Reply { status: 200, is_stream: true }), Action::Inspect));
    assert!(matches!(l.step(Event::BodyCode { code: Some(10007) }), Action::Send));
    assert!(matches!(l.step(Event::Reply { status: 200, is_stream: false }), Action::Inspect));
    assert!(matches!(l.step(Event::BodyCode { code: Some(1) }), Action::Forward));
}

#[test]
fn retried_status_until_exhausted() {
    let ep = endpoint("u", PathMode::Append, KeyMode::Passthrough, "", 2);
    let mut l = RetryLoop::new(&ep);
    let mut sends = 1;
    let body = loop {
        match l.step(Event::Reply { status: 429, is_stream: false }) {
            Action::Send => sends += 1,
            Action::Fail { status, body } => {
                assert_eq!(status, 502);
                break body;
            }
            _ => panic!("unexpected action"),
        }
    };
    assert_eq!(sends, 3);
    assert_eq!(
        String::from_utf8(body).unwrap(),
        r#"{"error":{"message":"上游返回 429 Too Many Requests，重试 2 次后仍失败","type":"upstream_error"}}"#
    );
}

#[test]
fn network_errors_until_exhausted() {
    let ep = endpoint("u", PathMode::Append, KeyMode::Passthrough, "", 1);
    let mut l = RetryLoop::new(&ep);
    assert!(matches!(l.step(Event::NetworkError { message: text("boom") }), Action::Send));
    match l.step(Event::NetworkError { message: text("timed out") }) {
        Action::Fail { status, body } => {
            assert_eq!(status, 502);
            assert_eq!(
                String::from_utf8(body).unwrap(),
                r#"{"error":{"message":"网络错误，重试 1 次后仍失败：timed out","type":"upstream_error"}}"#
            );
        }
        _ => panic!("expected a failure"),
    }
}

#[test]
fn last_status_wins_over_network_error() {
    let ep = endpoint("u", PathMode::Append, KeyMode::Passthrough, "", 1);
    let mut l = RetryLoop::new(&ep);
    assert!(matches!(l.step(Event::Reply { status: 500, is_stream: false }), Action::Send));
    match l.step(Event::NetworkError { message: text("reset") }) {
        Action::Fail { body, .. } => assert_eq!(
            String::from_utf8(body).unwrap(),
            r#"{"error":{"message":"上游返回 500 Internal Server Error，重试 1 次后仍失败","type":"upstream_error"}}"#
        ),
        _ => panic!("expected a failure"),
    }
}

#[test]
fn no_retries_fails_at_once() {
    let ep = endpoint("u", PathMode::Append, KeyMode::Passthrough, "", 0);
    let mut l = RetryLoop::new(&ep);
    assert!(matches!(l.step(Event::Reply { status: 503, is_stream: false }), Action::Fail { .. }));
}

#[test]
fn gateway_timeouts_are_never_retried() {
    let mut ep = endpoint("u", PathMode::Append, KeyMode::Passthrough, "", 5);
    ep.retry_on_status = vec![StatusSpec::Range(text("500-599"))];
    let mut l = RetryLoop::new(&ep);
    assert!(matches!(l.step(Event::Reply { status: 504, is_stream: false }), Action::Forward));
    let mut l = RetryLoop::new(&ep);
    assert!(matches!(l.step(Event::Reply { status: 524, is_stream: false }), Action::Forward));
}

#[test]
fn retried_status_on_a_stream_is_passed_on() {
    let ep = endpoint("u", PathMode::Append, KeyMode::Passthrough, "", 5);
    let mut l = RetryLoop::new(&ep);
    assert!(matches!(l.step(Event::Reply { status: 500, is_stream: true }), Action::Forward));
}

#[test]
fn failure_bodies() {
    let b = failure_reply_body(None, None, &None, 3);
    assert_eq!(
        String::from_utf8(b).unwrap(),
        r#"{"error":{"message":"未知错误","type":"upstream_error"}}"#
    );
    let b = failure_reply_body(Some(599), None, &None, 10000);
    assert_eq!(
        String::from_utf8(b).unwrap(),
        r#"{"error":{"message":"上游返回 599 <unknown status code>，重试 10000 次后仍失败","type":"upstream_error"}}"#
    );
    let b = failure_reply_body(Some(502), Some("Bad Gateway"), &Some(text("x")), 0);
    assert_eq!(
        String::from_utf8(b).unwrap(),
        r#"{"error":{"message":"上游返回 502 Bad Gateway，重试 0 次后仍失败","type":"upstream_error"}}"#
    );
}

// ---------------------------------------------------------------- routing

fn two_providers() -> Config {
    let mut map = ModelMap::new();
    map.insert(text("gpt"), text("xopglm52"));
    let mut c1 = common();
    c1.model_map = Some(map);
    let p1 = Provider {
        name: text("first"),
        common: c1,
        openai: Some(raw("https://one.example/v1", &["gpt", "plain"])),
        anthropic: None,
        responses: None,
    };
    let p2 = Provider {
        name: text("second"),
        common: common(),
        openai: Some(raw("https://two.example/v1", &["gpt", "other"])),
        anthropic: Some(raw("https://two.example/anthropic", &["sonnet"])),
        responses: None,
    };
    config(vec![p1, p2])
}

#[test]
fn first_provider_serving_the_model_wins() {
    let cfg = two_providers();
    let ep = pick_endpoint(&cfg, Protocol::OpenAI, "gpt").unwrap();
    assert_eq!(ep.base_url, "https://one.example/v1");
    let ep = pick_endpoint(&cfg, Protocol::OpenAI, "other").unwrap();
    assert_eq!(ep.base_url, "https://two.example/v1");
    let ep = pick_endpoint(&cfg, Protocol::Anthropic, "sonnet").unwrap();
    assert_eq!(ep.base_url, "https://two.example/anthropic");
    assert!(pick_endpoint(&cfg, Protocol::Anthropic, "gpt").is_none());
    assert!(pick_endpoint(&cfg, Protocol::Responses, "gpt").is_none());
}

#[test]
fn rejected_requests() {
    let cfg = two_providers();
    match route_request(&cfg, "v9/chat", br#"{"model":"gpt"}"#) {
        RouteOutcome::Reject { status, body } => {
            assert_eq!(status, 404);
            assert_eq!(
                String::from_utf8(body).unwrap(),
                r#"{"error":{"message":"不支持的请求路径","type":"proxy_error"}}"#
            );
        }
        _ => panic!("expected a rejection"),
    }
    match route_request(&cfg, "v1/chat/completions", b"{not json") {
        RouteOutcome::Reject { status, body } => {
            assert_eq!(status, 400);
            assert_eq!(
                String::from_utf8(body).unwrap(),
                r#"{"error":{"message":"请求 body 不是合法 JSON","type":"proxy_error"}}"#
            );
        }
        _ => panic!("expected a rejection"),
    }
    match route_request(&cfg, "v2/v1/messages", br#"{"model":"gpt"}"#) {
        RouteOutcome::Reject { status, body } => {
            assert_eq!(status, 404);
            assert_eq!(
                String::from_utf8(body).unwrap(),
                r#"{"error":{"message":"未找到匹配的渠道：协议 Anthropic，模型 gpt","type":"proxy_error"}}"#
            );
        }
        _ => panic!("expected a rejection"),
    }
    match route_request(&cfg, "v1/chat/completions", br#"{"messages":[]}"#) {
        RouteOutcome::Reject { status, body } => {
            assert_eq!(status, 404);
            assert_eq!(
                String::from_utf8(body).unwrap(),
                r#"{"error":{"message":"未找到匹配的渠道：协议 OpenAI，模型 ","type":"proxy_error"}}"#
            );
        }
        _ => panic!("expected a rejection"),
    }
}

#[test]
fn forwarded_requests_get_mapped_models() {
    let cfg = two_providers();
    match route_request(&cfg, "/v1/chat/completions", br#"{"stream":true, "model":"gpt"}"#) {
        RouteOutcome::Forward { protocol, endpoint, body } => {
            assert_eq!(protocol, Protocol::OpenAI);
            assert_eq!(endpoint.base_url, "https://one.example/v1");
            assert_eq!(String::from_utf8(body).unwrap(), r#"{"model":"xopglm52","stream":true}"#);
        }
        _ => panic!("expected a forward"),
    }
    match route_request(&cfg, "v1/chat/completions", br#"{ "model" : "plain" }"#) {
        RouteOutcome::Forward { body, .. } => {
            assert_eq!(String::from_utf8(body).unwrap(), r#"{"model":"plain"}"#);
        }
        _ => panic!("expected a forward"),
    }
}

#[test]
fn plans_name_the_mapped_model() {
    let cfg = two_providers();
    match plan_route(&cfg, "v1", Some(Some(text("gpt")))) {
        RoutePlan::Forward { model, .. } => assert_eq!(model, Some(text("xopglm52"))),
        _ => panic!("expected a forward"),
    }
    match plan_route(&cfg, "v1", Some(Some(text("other")))) {
        RoutePlan::Forward { model, endpoint, .. } => {
            assert_eq!(model, None);
            assert_eq!(endpoint.base_url, "https://two.example/v1");
        }
        _ => panic!("expected a forward"),
    }
    assert!(matches!(plan_route(&cfg, "v1", None), RoutePlan::Reject { status: 400, .. }));
    assert!(matches!(plan_route(&cfg, "x", None), RoutePlan::Reject { status: 404, .. }));
}

#[test]
fn proxy_error_bodies() {
    assert_eq!(
        String::from_utf8(error_body("oops")).unwrap(),
        r#"{"error":{"message":"oops","type":"proxy_error"}}"#
    );
}

#[test]
fn event_stream_content_types() {
    assert!(is_event_stream(Some("text/event-stream")));
    assert!(is_event_stream(Some("text/event-stream; charset=utf-8")));
    assert!(!is_event_stream(Some("application/json")));
    assert!(!is_event_stream(Some("TEXT/EVENT-STREAM")));
    assert!(!is_event_stream(None));
}

#[test]
fn read_ahead_stops_at_64kb() {
    let mut scan = PreloadScan::new();
    assert!(scan.push_chunk(&vec![b'x'; 40000]));
    assert!(!scan.push_chunk(&vec![b'x'; 30000]));
    let mut scan = PreloadScan::new();
    assert!(!scan.push_chunk(&vec![b'y'; 65536]));
    let mut scan = PreloadScan::new();
    assert!(scan.push_chunk(&vec![b'y'; 65535]));
}

#[test]
fn request_bodies_are_cleaned() {
    let body = br#"{"input":[{"role":"user","content":"hi"},{"type":"message","content":""},{"role":"user","content":[]},{"type":"function_call","content":"x"},"plain"],"model":"m"}"#;
    let out = clean_request_body(body);
    assert_eq!(
        String::from_utf8(out).unwrap(),
        r#"{"input":[{"content":"hi","role":"user","type":"message"},{"content":"x","type":"function_call"},"plain"],"model":"m"}"#
    );
    let body = br#"{"messages":[{"role":"system","content":""},{"role":"user","content":"q"}]}"#;
    assert_eq!(
        String::from_utf8(clean_request_body(body)).unwrap(),
        r#"{"messages":[{"content":"q","role":"user","type":"message"}]}"#
    );
    let body = br#"{"messages":"not an array"}"#;
    assert_eq!(clean_request_body(body), body.to_vec());
}

#[test]
fn forwarded_bodies_are_cleaned_when_switched_on() {
    let mut cfg = two_providers();
    let body = br#"{"model":"plain","input":[{"role":"user","content":""},{"role":"user","content":"a"}]}"#;
    match route_request(&cfg, "v1/chat/completions", body) {
        RouteOutcome::Forward { body, .. } => assert_eq!(
            String::from_utf8(body).unwrap(),
            r#"{"input":[{"content":"a","role":"user","type":"message"}],"model":"plain"}"#
        ),
        _ => panic!("expected a forward"),
    }
    cfg.server.clean_empty_content = false;
    match route_request(&cfg, "v1/chat/completions", body) {
        RouteOutcome::Forward { body, .. } => assert_eq!(
            String::from_utf8(body).unwrap(),
            r#"{"input":[{"content":"","role":"user"},{"content":"a","role":"user"}],"model":"plain"}"#
        ),
        _ => panic!("expected a forward"),
    }
}
