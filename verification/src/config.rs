//! Configuration: providers, their endpoints, and the rules that merge a
//! provider's shared settings into each endpoint; the retry status rules.
//!
//! Provider-level fields are shared by the endpoints of all protocols; a
//! field set on an endpoint overrides the provider-level one.
use vstd::prelude::*;
use vstd::string::StringExecFns;
use crate::model_map::ModelMap;
use crate::text::{
    all_digits, chars_of, digit_value, digits_value, find_char, is_digit, is_first_index,
    lemma_first_index_unique, parse_u16, parse_u16_spec, split_once_spec,
};

verus! {

// ---------------------------------------------------------------------------
// Types
// ---------------------------------------------------------------------------

/// The whole configuration file.
pub struct Config {
    pub server: ServerConfig,
    pub log: LogConfig,
    pub provider: Vec<Provider>,
}

/// The `[server]` table.
pub struct ServerConfig {
    pub listen: String,
    /// Clean request bodies before they go upstream (see `cleaning`).
    pub clean_empty_content: bool,
}

/// The `[log]` table.
pub struct LogConfig {
    pub level: String,
    pub format: String,
    pub to_stdout: bool,
    pub to_file: String,
    pub rotate_size_mb: u64,
    pub rotate_keep: usize,
}

/// Provider-level settings shared by all of a provider's endpoints.
pub struct ProviderCommon {
    pub api_key: Option<String>,
    pub models: Option<Vec<String>>,
    pub model_map: Option<ModelMap>,
    pub max_retries: Option<u32>,
    pub retry_on_status: Option<Vec<StatusSpec>>,
    pub retry_on_code: Option<Vec<i64>>,
    pub key_mode: Option<KeyMode>,
    pub path_mode: Option<PathMode>,
}

/// One `[[provider]]`, with an optional endpoint per protocol.
pub struct Provider {
    pub name: String,
    pub common: ProviderCommon,
    pub openai: Option<EndpointRaw>,
    pub anthropic: Option<EndpointRaw>,
    pub responses: Option<EndpointRaw>,
}

/// An endpoint as written in the file; every field is optional and a
/// missing one is taken from the provider level.
pub struct EndpointRaw {
    pub base_url: Option<String>,
    pub api_key: Option<String>,
    pub models: Option<Vec<String>>,
    pub model_map: Option<ModelMap>,
    pub max_retries: Option<u32>,
    pub retry_on_status: Option<Vec<StatusSpec>>,
    pub retry_on_code: Option<Vec<i64>>,
    pub key_mode: Option<KeyMode>,
    pub path_mode: Option<PathMode>,
}

/// An endpoint with the provider-level settings merged in.
pub struct Endpoint {
    pub base_url: String,
    pub api_key: String,
    pub key_mode: KeyMode,
    pub models: Vec<String>,
    pub model_map: ModelMap,
    pub retry_on_status: Vec<StatusSpec>,
    pub retry_on_code: Vec<i64>,
    pub max_retries: u32,
    pub path_mode: PathMode,
}

/// Whose API key goes upstream.
#[derive(Debug, Clone, Copy, PartialEq, Eq, Structural)]
pub enum KeyMode {
    /// The configured `api_key` replaces the client's key (when it is set).
    Override,
    /// The client's own key is passed on.
    Passthrough,
}

/// How the upstream URL is formed from `base_url`.
#[derive(Debug, Clone, Copy, PartialEq, Eq, Structural)]
pub enum PathMode {
    /// `base_url` followed by the protocol's path suffix.
    Append,
    /// `base_url` as written.
    Full,
}

impl Default for KeyMode {
    fn default() -> (r: Self)
        ensures
            r == KeyMode::Passthrough,
    {
        KeyMode::Passthrough
    }
}

impl Default for PathMode {
    fn default() -> (r: Self)
        ensures
            r == PathMode::Append,
    {
        PathMode::Append
    }
}

/// One entry of `retry_on_status`: a single code or a text such as
/// `"500-503"`.
pub enum StatusSpec {
    Single(u16),
    Range(String),
}

impl StatusSpec {
    /// A copy of this entry.
    pub fn duplicate(&self) -> (r: Self)
        ensures
            r == *self,
    {
        match self {
            StatusSpec::Single(c) => StatusSpec::Single(*c),
            StatusSpec::Range(s) => StatusSpec::Range(s.clone()),
        }
    }
}

// ---------------------------------------------------------------------------
// Defaults of the [log] table
// ---------------------------------------------------------------------------

/// The default listen address of the `[server]` table.
pub fn default_listen() -> (r: String)
    ensures
        r@ == "127.0.0.1:7946"@,
{
    String::from_str("127.0.0.1:7946")
}

/// The default log level.
pub fn default_level() -> (r: String)
    ensures
        r@ == "info"@,
{
    String::from_str("info")
}

/// The default log format.
pub fn default_format() -> (r: String)
    ensures
        r@ == "pretty"@,
{
    String::from_str("pretty")
}

/// Logging to stdout is on unless switched off.
pub fn default_true() -> (r: bool)
    ensures
        r,
{
    true
}

/// The default size, in MB, at which a log file is rotated.
pub fn default_rotate_size() -> (r: u64)
    ensures
        r == 50,
{
    50
}

/// The default number of rotated log files kept.
pub fn default_rotate_keep() -> (r: usize)
    ensures
        r == 7,
{
    7
}

// ---------------------------------------------------------------------------
// Status rules
// ---------------------------------------------------------------------------

/// The range of codes that a `retry_on_status` text stands for: `"a-b"`
/// (split at its first `-`) is `a..=b` when both sides parse as `u16`; a
/// text without `-` that parses as a `u16` `c` is `c..=c`; any other text
/// stands for nothing.
pub open spec fn range_of_text(t: Seq<char>) -> Option<(u16, u16)> {
    match split_once_spec(t, '-') {
        Some(parts) => match (parse_u16_spec(parts.0), parse_u16_spec(parts.1)) {
            (Some(a), Some(b)) => Some((a, b)),
            _ => None,
        },
        None => match parse_u16_spec(t) {
            Some(c) => Some((c, c)),
            None => None,
        },
    }
}

/// The range of codes that one `retry_on_status` entry stands for: a single
/// code `c` is `c..=c`, a text as `range_of_text` says.
pub open spec fn range_of(s: StatusSpec) -> Option<(u16, u16)> {
    match s {
        StatusSpec::Single(c) => Some((c, c)),
        StatusSpec::Range(r) => range_of_text(r@),
    }
}

/// The ranges of the entries of `specs` that stand for one, in order.
pub open spec fn ranges_of(specs: Seq<StatusSpec>) -> Seq<(u16, u16)>
    decreases specs.len(),
{
    if specs.len() == 0 {
        seq![]
    } else {
        let rest = ranges_of(specs.drop_last());
        match range_of(specs.last()) {
            Some(r) => rest.push(r),
            None => rest,
        }
    }
}

/// `code` lies in one of `ranges`.
pub open spec fn in_some_range(ranges: Seq<(u16, u16)>, code: u16) -> bool {
    exists|i: int| 0 <= i < ranges.len() && #[trigger] ranges[i].0 <= code && code <= ranges[i].1
}

/// A set of inclusive status-code ranges.
pub struct StatusMatcher {
    ranges: Vec<(u16, u16)>,
}

impl View for StatusMatcher {
    type V = Seq<(u16, u16)>;

    closed spec fn view(&self) -> Seq<(u16, u16)> {
        self.ranges@
    }
}

/// The range of one `retry_on_status` entry.
fn range_of_entry(s: &StatusSpec) -> (r: Option<(u16, u16)>)
    ensures
        r == range_of(*s),
{
    match s {
        StatusSpec::Single(c) => Some((*c, *c)),
        StatusSpec::Range(text) => {
            let v = chars_of(text.as_str());
            let n = v.len();
            match find_char(&v, 0, n, '-') {
                Some(i) => {
                    proof {
                        assert(v@.subrange(0, n as int) =~= text@);
                        assert(text@.take(i as int) =~= v@.subrange(0, i as int));
                        assert(text@.skip(i + 1) =~= v@.subrange(i + 1, n as int));
                    }
                    let a = parse_u16(&v, 0, i);
                    let b = parse_u16(&v, i + 1, n);
                    match (a, b) {
                        (Some(a), Some(b)) => Some((a, b)),
                        _ => None,
                    }
                },
                None => {
                    proof {
                        assert(v@.subrange(0, n as int) =~= text@);
                    }
                    match parse_u16(&v, 0, n) {
                        Some(c) => Some((c, c)),
                        None => None,
                    }
                },
            }
        },
    }
}

impl StatusMatcher {
    /// Collects the ranges of `specs`, skipping entries that stand for none.
    pub fn from_specs(specs: &[StatusSpec]) -> (r: Self)
        ensures
            r@ == ranges_of(specs@),
    {
        let mut ranges: Vec<(u16, u16)> = Vec::new();
        let mut i: usize = 0;
        while i < specs.len()
            invariant
                i <= specs.len(),
                ranges@ == ranges_of(specs@.take(i as int)),
            decreases specs.len() - i,
        {
            proof {
                assert(specs@.take(i + 1).drop_last() =~= specs@.take(i as int));
                assert(specs@.take(i + 1).last() == specs@[i as int]);
            }
            match range_of_entry(&specs[i]) {
                Some(r) => ranges.push(r),
                None => {},
            }
            i += 1;
        }
        proof {
            assert(specs@.take(specs.len() as int) =~= specs@);
        }
        StatusMatcher { ranges }
    }

    /// Whether `code` lies in one of the ranges.
    pub fn matches(&self, code: u16) -> (r: bool)
        ensures
            r == in_some_range(self@, code),
    {
        let mut i: usize = 0;
        while i < self.ranges.len()
            invariant
                i <= self.ranges.len(),
                forall|j: int|
                    0 <= j < i ==> !(#[trigger] self.ranges@[j].0 <= code && code
                        <= self.ranges@[j].1),
            decreases self.ranges.len() - i,
        {
            let (lo, hi) = self.ranges[i];
            if lo <= code && code <= hi {
                return true;
            }
            i += 1;
        }
        false
    }
}

/// The ranges retried when an endpoint names none: 100-199, 300-399,
/// 401-407, 409-499, 500-503, 505-523 and 525-599.
pub open spec fn default_ranges() -> Seq<(u16, u16)> {
    seq![(100, 199), (300, 399), (401, 407), (409, 499), (500, 503), (505, 523), (525, 599)]
}

/// The texts of the default `retry_on_status` entries.
pub open spec fn default_range_texts() -> Seq<Seq<char>> {
    seq![
        "100-199"@,
        "300-399"@,
        "401-407"@,
        "409-499"@,
        "500-503"@,
        "505-523"@,
        "525-599"@,
    ]
}

/// A three-digit ASCII number.
proof fn lemma_three_digits(d: Seq<char>)
    requires
        d.len() == 3,
        all_digits(d),
    ensures
        digits_value(d) == digit_value(d[0]) * 100 + digit_value(d[1]) * 10 + digit_value(d[2]),
{
    let d2 = d.drop_last();
    let d1 = d2.drop_last();
    let d0 = d1.drop_last();
    assert(d0.len() == 0);
    assert(d1.last() == d[0] && d2.last() == d[1] && d.last() == d[2]);
    assert(digits_value(d0) == 0);
    assert(digits_value(d1) == digit_value(d[0]));
    assert(digits_value(d2) == digit_value(d[0]) * 10 + digit_value(d[1]));
}

/// A text `"abc-xyz"` of two three-digit numbers stands for `abc..=xyz`.
proof fn lemma_range_text(t: Seq<char>)
    requires
        t.len() == 7,
        t[3] == '-',
        is_digit(t[0]) && is_digit(t[1]) && is_digit(t[2]),
        is_digit(t[4]) && is_digit(t[5]) && is_digit(t[6]),
        t[0] != '+' && t[4] != '+',
    ensures
        range_of_text(t) == Some(
            (
                (digit_value(t[0]) * 100 + digit_value(t[1]) * 10 + digit_value(t[2])) as u16,
                (digit_value(t[4]) * 100 + digit_value(t[5]) * 10 + digit_value(t[6])) as u16,
            ),
        ),
{
    assert(is_first_index(t, '-', 3)) by {
        assert forall|j: int| 0 <= j < 3 implies t[j] != '-' by {
            assert(is_digit(t[j]));
        }
    }
    lemma_first_index_unique(t, '-', 3);
    let a = t.take(3);
    let b = t.skip(4);
    assert(all_digits(a)) by {
        assert forall|j: int| 0 <= j < 3 implies #[trigger] is_digit(a[j]) by {
            assert(a[j] == t[j]);
        }
    }
    assert(all_digits(b)) by {
        assert forall|j: int| 0 <= j < 3 implies #[trigger] is_digit(b[j]) by {
            assert(b[j] == t[j + 4]);
        }
    }
    lemma_three_digits(a);
    lemma_three_digits(b);
    assert(a[0] == t[0] && a[1] == t[1] && a[2] == t[2]);
    assert(b[0] == t[4] && b[1] == t[5] && b[2] == t[6]);
}

/// Each default text stands for the matching default range.
proof fn lemma_text_100_199()
    ensures
        range_of_text("100-199"@) == Some((100u16, 199u16)),
{
    reveal_strlit("100-199");
    lemma_range_text("100-199"@);
}

proof fn lemma_text_300_399()
    ensures
        range_of_text("300-399"@) == Some((300u16, 399u16)),
{
    reveal_strlit("300-399");
    lemma_range_text("300-399"@);
}

proof fn lemma_text_401_407()
    ensures
        range_of_text("401-407"@) == Some((401u16, 407u16)),
{
    reveal_strlit("401-407");
    lemma_range_text("401-407"@);
}

proof fn lemma_text_409_499()
    ensures
        range_of_text("409-499"@) == Some((409u16, 499u16)),
{
    reveal_strlit("409-499");
    lemma_range_text("409-499"@);
}

proof fn lemma_text_500_503()
    ensures
        range_of_text("500-503"@) == Some((500u16, 503u16)),
{
    reveal_strlit("500-503");
    lemma_range_text("500-503"@);
}

proof fn lemma_text_505_523()
    ensures
        range_of_text("505-523"@) == Some((505u16, 523u16)),
{
    reveal_strlit("505-523");
    lemma_range_text("505-523"@);
}

proof fn lemma_text_525_599()
    ensures
        range_of_text("525-599"@) == Some((525u16, 599u16)),
{
    reveal_strlit("525-599");
    lemma_range_text("525-599"@);
}

proof fn lemma_default_texts()
    ensures
        forall|i: int|
            0 <= i < 7 ==> range_of_text(#[trigger] default_range_texts()[i]) == Some(
                default_ranges()[i],
            ),
{
    lemma_text_100_199();
    lemma_text_300_399();
    lemma_text_401_407();
    lemma_text_409_499();
    lemma_text_500_503();
    lemma_text_505_523();
    lemma_text_525_599();
}

/// The first `k` default entries give the first `k` default ranges.
proof fn lemma_default_prefix(specs: Seq<StatusSpec>, k: int)
    requires
        specs.len() == 7,
        forall|i: int|
            0 <= i < 7 ==> (#[trigger] specs[i] matches StatusSpec::Range(t) && t@
                == default_range_texts()[i]),
        0 <= k <= 7,
    ensures
        ranges_of(specs.take(k)) == default_ranges().take(k),
    decreases k,
{
    if k == 0 {
        assert(specs.take(0) =~= Seq::<StatusSpec>::empty());
        assert(default_ranges().take(0) =~= Seq::<(u16, u16)>::empty());
    } else {
        lemma_default_prefix(specs, k - 1);
        lemma_default_texts();
        assert(specs.take(k).drop_last() =~= specs.take(k - 1));
        assert(specs.take(k).last() == specs[k - 1]);
        let t = default_range_texts()[k - 1];
        assert(range_of_text(t) == Some(default_ranges()[k - 1]));
        assert(default_ranges().take(k) =~= default_ranges().take(k - 1).push(
            default_ranges()[k - 1],
        ));
    }
}

/// The default entries stand for the default ranges.
pub proof fn lemma_default_ranges(specs: Seq<StatusSpec>)
    requires
        specs.len() == 7,
        forall|i: int|
            0 <= i < 7 ==> (#[trigger] specs[i] matches StatusSpec::Range(t) && t@
                == default_range_texts()[i]),
    ensures
        ranges_of(specs) == default_ranges(),
{
    lemma_default_prefix(specs, 7);
    assert(specs.take(7) =~= specs);
    assert(default_ranges().take(7) =~= default_ranges());
}

/// The default `retry_on_status` entries, as texts.
pub fn default_retry_specs() -> (r: Vec<StatusSpec>)
    ensures
        r@.len() == 7,
        forall|i: int|
            0 <= i < 7 ==> (#[trigger] r@[i] matches StatusSpec::Range(t) && t@
                == default_range_texts()[i]),
{
    let mut r: Vec<StatusSpec> = Vec::new();
    r.push(StatusSpec::Range(String::from_str("100-199")));
    r.push(StatusSpec::Range(String::from_str("300-399")));
    r.push(StatusSpec::Range(String::from_str("401-407")));
    r.push(StatusSpec::Range(String::from_str("409-499")));
    r.push(StatusSpec::Range(String::from_str("500-503")));
    r.push(StatusSpec::Range(String::from_str("505-523")));
    r.push(StatusSpec::Range(String::from_str("525-599")));
    r
}

/// Codes that are never retried, whatever the configuration: 504 and 524.
pub open spec fn always_skipped(code: u16) -> bool {
    code == 504 || code == 524
}

/// Whether `code` is one that is never retried.
pub fn is_always_skip(code: u16) -> (r: bool)
    ensures
        r == always_skipped(code),
{
    code == 504 || code == 524
}

/// The business error codes retried when an endpoint names none.
pub open spec fn default_codes() -> Seq<i64> {
    seq![10007, 10008, 10009, 10010, 10012, 10110, 10222, 10223, 11200, 11201, 11202, 11203, 11210]
}

/// The default `retry_on_code` list.
pub fn default_retry_codes() -> (r: Vec<i64>)
    ensures
        r@ == default_codes(),
{
    let r: Vec<i64> = vec![
        10007,
        10008,
        10009,
        10010,
        10012,
        10110,
        10222,
        10223,
        11200,
        11201,
        11202,
        11203,
        11210,
    ];
    assert(r@ =~= default_codes());
    r
}

// ---------------------------------------------------------------------------
// Copies
// ---------------------------------------------------------------------------

/// A copy of a list of strings.
fn copy_strings(v: &Vec<String>) -> (r: Vec<String>)
    ensures
        r@ == v@,
{
    let mut r: Vec<String> = Vec::new();
    let mut i: usize = 0;
    while i < v.len()
        invariant
            i <= v.len(),
            r@ == v@.take(i as int),
        decreases v.len() - i,
    {
        r.push(v[i].clone());
        proof {
            assert(v@.take(i + 1) =~= v@.take(i as int).push(v@[i as int]));
        }
        i += 1;
    }
    proof {
        assert(v@.take(v.len() as int) =~= v@);
    }
    r
}

/// A copy of a list of status entries.
fn copy_specs(v: &Vec<StatusSpec>) -> (r: Vec<StatusSpec>)
    ensures
        r@ == v@,
{
    let mut r: Vec<StatusSpec> = Vec::new();
    let mut i: usize = 0;
    while i < v.len()
        invariant
            i <= v.len(),
            r@ == v@.take(i as int),
        decreases v.len() - i,
    {
        r.push(v[i].duplicate());
        proof {
            assert(v@.take(i + 1) =~= v@.take(i as int).push(v@[i as int]));
        }
        i += 1;
    }
    proof {
        assert(v@.take(v.len() as int) =~= v@);
    }
    r
}

/// A copy of a list of codes.
fn copy_codes(v: &Vec<i64>) -> (r: Vec<i64>)
    ensures
        r@ == v@,
{
    let mut r: Vec<i64> = Vec::new();
    let mut i: usize = 0;
    while i < v.len()
        invariant
            i <= v.len(),
            r@ == v@.take(i as int),
        decreases v.len() - i,
    {
        r.push(v[i]);
        proof {
            assert(v@.take(i + 1) =~= v@.take(i as int).push(v@[i as int]));
        }
        i += 1;
    }
    proof {
        assert(v@.take(v.len() as int) =~= v@);
    }
    r
}

// ---------------------------------------------------------------------------
// Merging provider and endpoint settings
// ---------------------------------------------------------------------------

/// The endpoint-level value if set, else the provider-level one.
pub open spec fn prefer<T>(endpoint: Option<T>, provider: Option<T>) -> Option<T> {
    match endpoint {
        Some(x) => Some(x),
        None => provider,
    }
}

/// The `max_retries` of an endpoint that names none at either level.
pub open spec fn default_max_retries() -> u32 {
    10000
}

/// `e` is `raw` completed from the provider-level settings `c`: each field
/// is the endpoint's own value, else the provider's, else its default (an
/// empty key, list or table; pass-through keys; 10000 retries; appended
/// paths).
pub open spec fn merged(c: ProviderCommon, raw: EndpointRaw, e: Endpoint) -> bool {
    &&& raw.base_url matches Some(u) && e.base_url@ == u@
    &&& e.api_key@ == match prefer(raw.api_key, c.api_key) {
        Some(k) => k@,
        None => Seq::empty(),
    }
    &&& e.key_mode == match prefer(raw.key_mode, c.key_mode) {
        Some(m) => m,
        None => KeyMode::Passthrough,
    }
    &&& e.models@ == match prefer(raw.models, c.models) {
        Some(m) => m@,
        None => Seq::empty(),
    }
    &&& e.model_map@ == match prefer(raw.model_map, c.model_map) {
        Some(m) => m@,
        None => Map::empty(),
    }
    &&& e.retry_on_status@ == match prefer(raw.retry_on_status, c.retry_on_status) {
        Some(s) => s@,
        None => Seq::empty(),
    }
    &&& e.retry_on_code@ == match prefer(raw.retry_on_code, c.retry_on_code) {
        Some(s) => s@,
        None => Seq::empty(),
    }
    &&& e.max_retries == match prefer(raw.max_retries, c.max_retries) {
        Some(n) => n,
        None => default_max_retries(),
    }
    &&& e.path_mode == match prefer(raw.path_mode, c.path_mode) {
        Some(m) => m,
        None => PathMode::Append,
    }
}

/// `r` is what merging `raw` into `c` yields: an endpoint exactly when
/// `raw` names a `base_url`.
pub open spec fn resolves_to(c: ProviderCommon, raw: EndpointRaw, r: Option<Endpoint>) -> bool {
    &&& (r is Some <==> raw.base_url is Some)
    &&& (r matches Some(e) ==> merged(c, raw, e))
}

/// `r` is what the optional endpoint section `raw` yields.
pub open spec fn section_resolves_to(
    c: ProviderCommon,
    raw: Option<EndpointRaw>,
    r: Option<Endpoint>,
) -> bool {
    match raw {
        Some(raw) => resolves_to(c, raw, r),
        None => r is None,
    }
}

fn prefer_string(a: &Option<String>, b: &Option<String>) -> (r: String)
    ensures
        r@ == match prefer(*a, *b) {
            Some(k) => k@,
            None => Seq::empty(),
        },
{
    match a {
        Some(x) => x.clone(),
        None => match b {
            Some(y) => y.clone(),
            None => String::new(),
        },
    }
}

impl Provider {
    /// Merges the provider-level settings into `raw`, the endpoint's own
    /// fields taking precedence; `None` when `raw` has no `base_url`.
    pub fn resolve_endpoint(&self, raw: &EndpointRaw) -> (r: Option<Endpoint>)
        ensures
            resolves_to(self.common, *raw, r),
    {
        let base_url = match &raw.base_url {
            Some(u) => u.clone(),
            None => {
                return None;
            },
        };
        let c = &self.common;
        let api_key = prefer_string(&raw.api_key, &c.api_key);
        let key_mode = match raw.key_mode {
            Some(m) => m,
            None => match c.key_mode {
                Some(m) => m,
                None => KeyMode::Passthrough,
            },
        };
        let models = match &raw.models {
            Some(m) => copy_strings(m),
            None => match &c.models {
                Some(m) => copy_strings(m),
                None => Vec::new(),
            },
        };
        let model_map = match &raw.model_map {
            Some(m) => m.duplicate(),
            None => match &c.model_map {
                Some(m) => m.duplicate(),
                None => ModelMap::new(),
            },
        };
        let retry_on_status = match &raw.retry_on_status {
            Some(s) => copy_specs(s),
            None => match &c.retry_on_status {
                Some(s) => copy_specs(s),
                None => Vec::new(),
            },
        };
        let retry_on_code = match &raw.retry_on_code {
            Some(s) => copy_codes(s),
            None => match &c.retry_on_code {
                Some(s) => copy_codes(s),
                None => Vec::new(),
            },
        };
        let max_retries = match raw.max_retries {
            Some(n) => n,
            None => match c.max_retries {
                Some(n) => n,
                None => 10000,
            },
        };
        let path_mode = match raw.path_mode {
            Some(m) => m,
            None => match c.path_mode {
                Some(m) => m,
                None => PathMode::Append,
            },
        };
        Some(
            Endpoint {
                base_url,
                api_key,
                key_mode,
                models,
                model_map,
                retry_on_status,
                retry_on_code,
                max_retries,
                path_mode,
            },
        )
    }

    /// The OpenAI endpoint (`[provider.openai]`), merged.
    pub fn openai_endpoint(&self) -> (r: Option<Endpoint>)
        ensures
            section_resolves_to(self.common, self.openai, r),
    {
        match &self.openai {
            Some(raw) => self.resolve_endpoint(raw),
            None => None,
        }
    }

    /// The Anthropic endpoint (`[provider.anthropic]`), merged.
    pub fn claude_endpoint(&self) -> (r: Option<Endpoint>)
        ensures
            section_resolves_to(self.common, self.anthropic, r),
    {
        match &self.anthropic {
            Some(raw) => self.resolve_endpoint(raw),
            None => None,
        }
    }

    /// The Responses endpoint (`[provider.responses]`), merged.
    pub fn responses_endpoint(&self) -> (r: Option<Endpoint>)
        ensures
            section_resolves_to(self.common, self.responses, r),
    {
        match &self.responses {
            Some(raw) => self.resolve_endpoint(raw),
            None => None,
        }
    }
}

/// The ranges an endpoint retries: its own `retry_on_status`, or the
/// default ranges when it names none.
pub open spec fn effective_ranges(e: Endpoint) -> Seq<(u16, u16)> {
    if e.retry_on_status@.len() == 0 {
        default_ranges()
    } else {
        ranges_of(e.retry_on_status@)
    }
}

/// The business codes an endpoint retries: its own `retry_on_code`, or the
/// default codes when it names none.
pub open spec fn effective_codes(e: Endpoint) -> Seq<i64> {
    if e.retry_on_code@.len() == 0 {
        default_codes()
    } else {
        e.retry_on_code@
    }
}

/// What `map_model` gives for `client`: the mapped name, else `client`.
pub open spec fn mapped_model(map: Map<Seq<char>, Seq<char>>, client: Seq<char>) -> Seq<char> {
    if map.contains_key(client) {
        map[client]
    } else {
        client
    }
}

impl Endpoint {
    /// The matcher of the status codes to retry.
    pub fn status_matcher(&self) -> (r: StatusMatcher)
        ensures
            r@ == effective_ranges(*self),
    {
        if self.retry_on_status.len() == 0 {
            let specs = default_retry_specs();
            proof {
                lemma_default_ranges(specs@);
            }
            StatusMatcher::from_specs(specs.as_slice())
        } else {
            StatusMatcher::from_specs(self.retry_on_status.as_slice())
        }
    }

    /// The business error codes to retry.
    pub fn retry_codes(&self) -> (r: Vec<i64>)
        ensures
            r@ == effective_codes(*self),
    {
        if self.retry_on_code.len() == 0 {
            default_retry_codes()
        } else {
            copy_codes(&self.retry_on_code)
        }
    }

    /// The upstream model name for `client_model`: its mapping, else the
    /// name unchanged.
    pub fn map_model(&self, client_model: &str) -> (r: String)
        ensures
            r@ == mapped_model(self.model_map@, client_model@),
    {
        match self.model_map.get(client_model) {
            Some(m) => m.clone(),
            None => String::from_str(client_model),
        }
    }
}

// ---------------------------------------------------------------------------
// Laws of the status rules
// ---------------------------------------------------------------------------

/// The entry `s` stands for a range that holds `code`.
pub open spec fn entry_holds(s: StatusSpec, code: u16) -> bool {
    match range_of(s) {
        Some(r) => r.0 <= code && code <= r.1,
        None => false,
    }
}

/// A code matches the ranges of a list of entries exactly when one entry of
/// the list stands for a range that holds the code; entries that stand for
/// nothing never match.
pub proof fn law_matcher_covers_entries(specs: Seq<StatusSpec>, code: u16)
    ensures
        in_some_range(ranges_of(specs), code) <==> exists|i: int|
            0 <= i < specs.len() && #[trigger] entry_holds(specs[i], code),
    decreases specs.len(),
{
    if specs.len() > 0 {
        let init = specs.drop_last();
        law_matcher_covers_entries(init, code);
        let rest = ranges_of(init);
        let last = specs.len() - 1;
        if in_some_range(ranges_of(specs), code) {
            let k = choose|k: int|
                0 <= k < ranges_of(specs).len() && #[trigger] ranges_of(specs)[k].0 <= code && code
                    <= ranges_of(specs)[k].1;
            if k < rest.len() {
                assert(rest[k].0 <= code && code <= rest[k].1);
                assert(in_some_range(rest, code));
                let i = choose|i: int|
                    0 <= i < init.len() && #[trigger] entry_holds(init[i], code);
                assert(specs[i] == init[i]);
            } else {
                assert(specs.last() == specs[last]);
                assert(range_of(specs[last]) is Some);
                assert(entry_holds(specs[last], code));
            }
        }
        if exists|i: int|
            0 <= i < specs.len() && #[trigger] entry_holds(specs[i], code) {
            let i = choose|i: int|
                0 <= i < specs.len() && #[trigger] entry_holds(specs[i], code);
            if i < last {
                assert(init[i] == specs[i]);
                assert(entry_holds(init[i], code));
                assert(in_some_range(rest, code));
                let k = choose|k: int|
                    0 <= k < rest.len() && #[trigger] rest[k].0 <= code && code <= rest[k].1;
                assert(ranges_of(specs)[k] == rest[k]);
                assert(ranges_of(specs)[k].0 <= code && code <= ranges_of(specs)[k].1);
            } else {
                let n = rest.len() as int;
                assert(specs.last() == specs[last]);
                assert(ranges_of(specs)[n] == range_of(specs[last])->0);
                assert(ranges_of(specs)[n].0 <= code && code <= ranges_of(specs)[n].1);
            }
        }
    }
}

/// The default ranges hold exactly the codes 100-199, 300-399, 401-407,
/// 409-499, 500-503, 505-523 and 525-599; in particular never 504 or 524,
/// nor any 2xx code, 400 or 408.
pub proof fn law_default_ranges(code: u16)
    ensures
        in_some_range(default_ranges(), code) <==> (100 <= code <= 199 || 300 <= code <= 399 || 401
            <= code <= 407 || 409 <= code <= 499 || 500 <= code <= 503 || 505 <= code <= 523 || 525
            <= code <= 599),
        !in_some_range(default_ranges(), 504),
        !in_some_range(default_ranges(), 524),
{
    let d = default_ranges();
    assert(d[0] == (100u16, 199u16));
    assert(d[1] == (300u16, 399u16));
    assert(d[2] == (401u16, 407u16));
    assert(d[3] == (409u16, 499u16));
    assert(d[4] == (500u16, 503u16));
    assert(d[5] == (505u16, 523u16));
    assert(d[6] == (525u16, 599u16));
    if 100 <= code <= 199 || 300 <= code <= 399 || 401 <= code <= 407 || 409 <= code <= 499 || 500
        <= code <= 503 || 505 <= code <= 523 || 525 <= code <= 599 {
        if 100 <= code <= 199 {
            assert(d[0].0 <= code && code <= d[0].1);
        } else if 300 <= code <= 399 {
            assert(d[1].0 <= code && code <= d[1].1);
        } else if 401 <= code <= 407 {
            assert(d[2].0 <= code && code <= d[2].1);
        } else if 409 <= code <= 499 {
            assert(d[3].0 <= code && code <= d[3].1);
        } else if 500 <= code <= 503 {
            assert(d[4].0 <= code && code <= d[4].1);
        } else if 505 <= code <= 523 {
            assert(d[5].0 <= code && code <= d[5].1);
        } else {
            assert(d[6].0 <= code && code <= d[6].1);
        }
    }
}

/// A field set on the endpoint wins over the provider-level one, and a
/// provider-level field fills in a field that the endpoint leaves unset.
pub proof fn law_endpoint_overrides_provider(c: ProviderCommon, raw: EndpointRaw, e: Endpoint)
    requires
        merged(c, raw, e),
    ensures
        raw.api_key matches Some(k) ==> e.api_key@ == k@,
        raw.api_key is None && c.api_key is Some ==> e.api_key@ == c.api_key->0@,
        raw.models matches Some(m) ==> e.models@ == m@,
        raw.models is None && c.models is Some ==> e.models@ == c.models->0@,
        raw.max_retries matches Some(n) ==> e.max_retries == n,
        raw.max_retries is None && c.max_retries is Some ==> e.max_retries == c.max_retries->0,
        raw.key_mode matches Some(m) ==> e.key_mode == m,
        raw.key_mode is None && c.key_mode is Some ==> e.key_mode == c.key_mode->0,
        raw.path_mode matches Some(m) ==> e.path_mode == m,
        raw.path_mode is None && c.path_mode is Some ==> e.path_mode == c.path_mode->0,
        raw.model_map matches Some(m) ==> e.model_map@ == m@,
        raw.model_map is None && c.model_map is Some ==> e.model_map@ == c.model_map->0@,
        raw.retry_on_status matches Some(s) ==> e.retry_on_status@ == s@,
        raw.retry_on_status is None && c.retry_on_status is Some ==> e.retry_on_status@
            == c.retry_on_status->0@,
        raw.retry_on_code matches Some(s) ==> e.retry_on_code@ == s@,
        raw.retry_on_code is None && c.retry_on_code is Some ==> e.retry_on_code@
            == c.retry_on_code->0@,
        raw.base_url matches Some(u) && e.base_url@ == u@,
        raw.api_key is None && c.api_key is None ==> e.api_key@.len() == 0,
        raw.models is None && c.models is None ==> e.models@.len() == 0,
        raw.model_map is None && c.model_map is None ==> e.model_map@.dom().is_empty(),
        raw.max_retries is None && c.max_retries is None ==> e.max_retries == 10000,
        raw.key_mode is None && c.key_mode is None ==> e.key_mode == KeyMode::Passthrough,
        raw.path_mode is None && c.path_mode is None ==> e.path_mode == PathMode::Append,
{
}

/// Merging gives an endpoint exactly when the section names a `base_url`,
/// and then the endpoint's own table maps a model whenever it names one.
pub proof fn law_resolved_model_map(c: ProviderCommon, raw: EndpointRaw, r: Option<Endpoint>, model: Seq<char>)
    requires
        resolves_to(c, raw, r),
    ensures
        r is Some <==> raw.base_url is Some,
        r is Some && raw.model_map is Some && raw.model_map->0@.contains_key(model) ==> r->0.model_map@.contains_key(model)
            && r->0.model_map@[model] == raw.model_map->0@[model],
        r is Some && raw.model_map is Some && !raw.model_map->0@.contains_key(model) ==> !r->0.model_map@.contains_key(model),
{
}

} // verus!
