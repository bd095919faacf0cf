use mini_proxy::config::{
    default_format, default_level, default_listen, default_retry_codes, default_retry_specs, default_rotate_keep,
    default_rotate_size, default_true, is_always_skip, Endpoint, EndpointRaw, KeyMode, PathMode,
    Provider, ProviderCommon, StatusMatcher, StatusSpec,
};
use mini_proxy::model_map::ModelMap;
use mini_proxy::text::{chars_of, parse_i64, parse_u16};

fn u16_of(s: &str) -> Option<u16> {
    let v = chars_of(s);
    parse_u16(&v, 0, v.len())
}

fn i64_of(s: &str) -> Option<i64> {
    let v = chars_of(s);
    parse_i64(&v, 0, v.len())
}

fn empty_common() -> ProviderCommon {
    ProviderCommon {
        api_key: None,
        models: None,
        model_map: None,
        max_retries: None,
        retry_on_status: None,
        retry_on_code: None,
        key_mode: None,
        path_mode: None,
    }
}

fn raw_with_url(url: &str) -> EndpointRaw {
    EndpointRaw {
        base_url: Some(url.to_string()),
        api_key: None,
        models: None,
        model_map: None,
        max_retries: None,
        retry_on_status: None,
        retry_on_code: None,
        key_mode: None,
        path_mode: None,
    }
}

fn plain_endpoint(specs: Vec<StatusSpec>) -> Endpoint {
    Endpoint {
        base_url: "https://up.example/v1".to_string(),
        api_key: String::new(),
        key_mode: KeyMode::Passthrough,
        models: vec![],
        model_map: ModelMap::new(),
        retry_on_status: specs,
        retry_on_code: vec![],
        max_retries: 3,
        path_mode: PathMode::Append,
    }
}

#[test]
fn parse_u16_follows_str_parse() {
    assert_eq!(u16_of("100"), Some(100));
    assert_eq!(u16_of("+5"), Some(5));
    assert_eq!(u16_of("007"), Some(7));
    assert_eq!(u16_of("65535"), Some(65535));
    assert_eq!(u16_of("65536"), None);
    assert_eq!(u16_of("99999999999999999999"), None);
    assert_eq!(u16_of(""), None);
    assert_eq!(u16_of("+"), None);
    assert_eq!(u16_of("-1"), None);
    assert_eq!(u16_of("1a"), None);
    assert_eq!(u16_of(" 1"), None);
    for s in ["0", "+12", "600", "65535", "65536", "-0", "x", "１"] {
        assert_eq!(u16_of(s), s.parse::<u16>().ok(), "{}", s);
    }
}

#[test]
fn parse_i64_follows_str_parse() {
    assert_eq!(i64_of("-9223372036854775808"), Some(i64::MIN));
    assert_eq!(i64_of("9223372036854775807"), Some(i64::MAX));
    assert_eq!(i64_of("9223372036854775808"), None);
    assert_eq!(i64_of("-9223372036854775809"), None);
    assert_eq!(i64_of("-"), None);
    assert_eq!(i64_of("+42"), Some(42));
    assert_eq!(i64_of("-17"), Some(-17));
    assert_eq!(i64_of("10007"), Some(10007));
    for s in ["", "+", "-+1", "+-1", "00012", "1 ", "abc", "-0"] {
        assert_eq!(i64_of(s), s.parse::<i64>().ok(), "{}", s);
    }
}

#[test]
fn matcher_reads_single_codes_and_ranges() {
    let specs = vec![
        StatusSpec::Single(429),
        StatusSpec::Range("500-503".to_string()),
        StatusSpec::Range("abc".to_string()),
        StatusSpec::Range("600".to_string()),
        StatusSpec::Range("-5".to_string()),
        StatusSpec::Range("1-2-3".to_string()),
        StatusSpec::Range("300-200".to_string()),
    ];
    let m = StatusMatcher::from_specs(&specs);
    assert!(m.matches(429));
    assert!(!m.matches(428));
    assert!(m.matches(500));
    assert!(m.matches(502));
    assert!(m.matches(503));
    assert!(!m.matches(504));
    assert!(m.matches(600));
    assert!(!m.matches(5));
    assert!(!m.matches(1));
    assert!(!m.matches(250));
}

#[test]
fn empty_matcher_matches_nothing() {
    let m = StatusMatcher::from_specs(&[]);
    assert!(!m.matches(500));
    assert!(!m.matches(0));
}

#[test]
fn default_status_ranges() {
    let ep = plain_endpoint(vec![]);
    let m = ep.status_matcher();
    for code in [100u16, 150, 199, 300, 399, 401, 407, 409, 429, 499, 500, 503, 505, 523, 525, 599] {
        assert!(m.matches(code), "{}", code);
    }
    for code in [0u16, 99, 200, 204, 299, 400, 408, 504, 524, 600, 999] {
        assert!(!m.matches(code), "{}", code);
    }
    let specs = default_retry_specs();
    assert_eq!(specs.len(), 7);
    match &specs[3] {
        StatusSpec::Range(t) => assert_eq!(t, "409-499"),
        _ => panic!("expected a range"),
    }
}

#[test]
fn configured_ranges_replace_defaults() {
    let ep = plain_endpoint(vec![StatusSpec::Single(200)]);
    let m = ep.status_matcher();
    assert!(m.matches(200));
    assert!(!m.matches(429));
}

#[test]
fn always_skipped_codes() {
    assert!(is_always_skip(504));
    assert!(is_always_skip(524));
    assert!(!is_always_skip(503));
    assert!(!is_always_skip(500));
}

#[test]
fn retry_codes_default_and_configured() {
    let codes = default_retry_codes();
    assert_eq!(
        codes,
        vec![10007, 10008, 10009, 10010, 10012, 10110, 10222, 10223, 11200, 11201, 11202, 11203, 11210]
    );
    let mut ep = plain_endpoint(vec![]);
    assert_eq!(ep.retry_codes(), codes);
    ep.retry_on_code = vec![1, 2];
    assert_eq!(ep.retry_codes(), vec![1, 2]);
}

#[test]
fn log_defaults() {
    assert_eq!(default_listen(), "127.0.0.1:7946");
    assert_eq!(default_level(), "info");
    assert_eq!(default_format(), "pretty");
    assert!(default_true());
    assert_eq!(default_rotate_size(), 50);
    assert_eq!(default_rotate_keep(), 7);
}

#[test]
fn key_and_path_mode_defaults() {
    assert_eq!(KeyMode::default(), KeyMode::Passthrough);
    assert_eq!(PathMode::default(), PathMode::Append);
}

#[test]
fn endpoint_fields_override_provider_fields() {
    let mut common = empty_common();
    common.api_key = Some("provider-key".to_string());
    common.models = Some(vec!["a".to_string(), "b".to_string()]);
    common.max_retries = Some(5);
    common.key_mode = Some(KeyMode::Override);
    common.retry_on_code = Some(vec![7]);
    let mut pm = ModelMap::new();
    pm.insert("a".to_string(), "a-up".to_string());
    common.model_map = Some(pm);
    let mut raw = raw_with_url("https://e.example");
    raw.api_key = Some("endpoint-key".to_string());
    raw.path_mode = Some(PathMode::Full);
    raw.retry_on_status = Some(vec![StatusSpec::Single(418)]);
    let p = Provider { name: "p".to_string(), common, openai: Some(raw), anthropic: None, responses: None };
    let ep = p.openai_endpoint().expect("endpoint");
    assert_eq!(ep.base_url, "https://e.example");
    assert_eq!(ep.api_key, "endpoint-key");
    assert_eq!(ep.models, vec!["a".to_string(), "b".to_string()]);
    assert_eq!(ep.max_retries, 5);
    assert_eq!(ep.key_mode, KeyMode::Override);
    assert_eq!(ep.path_mode, PathMode::Full);
    assert_eq!(ep.retry_on_code, vec![7]);
    assert_eq!(ep.map_model("a"), "a-up");
    assert!(ep.status_matcher().matches(418));
    assert!(p.claude_endpoint().is_none());
    assert!(p.responses_endpoint().is_none());
}

#[test]
fn unset_fields_take_defaults() {
    let p = Provider {
        name: "p".to_string(),
        common: empty_common(),
        openai: None,
        anthropic: Some(raw_with_url("https://a.example")),
        responses: None,
    };
    let ep = p.claude_endpoint().expect("endpoint");
    assert_eq!(ep.api_key, "");
    assert!(ep.models.is_empty());
    assert_eq!(ep.max_retries, 10000);
    assert_eq!(ep.key_mode, KeyMode::Passthrough);
    assert_eq!(ep.path_mode, PathMode::Append);
    assert!(ep.retry_on_status.is_empty());
    assert!(ep.retry_on_code.is_empty());
    assert_eq!(ep.map_model("x"), "x");
}

#[test]
fn endpoint_without_base_url_is_none() {
    let mut raw = raw_with_url("u");
    raw.base_url = None;
    let mut common = empty_common();
    common.api_key = Some("k".to_string());
    let p = Provider { name: "p".to_string(), common, openai: None, anthropic: None, responses: Some(raw) };
    let r = p.responses.as_ref().unwrap();
    assert!(p.resolve_endpoint(r).is_none());
    assert!(p.responses_endpoint().is_none());
}

#[test]
fn model_map_reads_back_what_was_written() {
    let mut m = ModelMap::new();
    assert!(m.get("gpt").is_none());
    m.insert("gpt".to_string(), "glm".to_string());
    m.insert("other".to_string(), "x".to_string());
    assert_eq!(m.get("gpt").map(|s| s.as_str()), Some("glm"));
    m.insert("gpt".to_string(), "glm2".to_string());
    assert_eq!(m.get("gpt").map(|s| s.as_str()), Some("glm2"));
    assert_eq!(m.get("other").map(|s| s.as_str()), Some("x"));
    let d = m.duplicate();
    assert_eq!(d.get("gpt").map(|s| s.as_str()), Some("glm2"));
    assert!(d.get("missing").is_none());
}

#[test]
fn map_model_maps_or_passes_through() {
    let mut ep = plain_endpoint(vec![]);
    ep.model_map.insert("client".to_string(), "upstream".to_string());
    assert_eq!(ep.map_model("client"), "upstream");
    assert_eq!(ep.map_model("Client"), "Client");
    assert_eq!(ep.map_model(""), "");
}
