//! The retry loop's decisions: retries stay on the same endpoint and
//! model, without pauses between attempts, up to `max_retries` retries.
//!
//! The caller performs the outside work (sending the request, reading the
//! first part of a reply) and reports what happened; `RetryLoop::step`
//! decides what to do next.
use vstd::prelude::*;
use vstd::utf8::encode_utf8;
use crate::config::{
    always_skipped, effective_codes, effective_ranges, in_some_range, Endpoint, StatusMatcher,
};
use crate::text::{decimal, push_decimal, push_str};

verus! {

// ---------------------------------------------------------------------------
// Status text
// ---------------------------------------------------------------------------

/// The reason phrase that the `http` crate has for a status code (none for
/// codes it has no phrase for, and for numbers outside 100-999).
pub uninterp spec fn canonical_reason(code: u16) -> Option<Seq<char>>;

/// Builds a status code with `axum::http::StatusCode::from_u16` and asks it
/// for `StatusCode::canonical_reason`. Believed: the result is the named
/// `canonical_reason` of `code`.
#[verifier::external_body]
fn status_reason(code: u16) -> (r: Option<&'static str>)
    ensures
        match r {
            Some(s) => canonical_reason(code) == Some(s@),
            None => canonical_reason(code) is None,
        },
{
    axum::http::StatusCode::from_u16(code).ok().and_then(|s| s.canonical_reason())
}

/// A status code as `StatusCode`'s `Display` prints it, given its reason
/// phrase: the number, a space, and the phrase or `<unknown status code>`.
pub open spec fn status_text_with(code: u16, reason: Option<Seq<char>>) -> Seq<u8> {
    decimal(code as nat) + encode_utf8(" "@) + match reason {
        Some(r) => encode_utf8(r),
        None => encode_utf8("<unknown status code>"@),
    }
}

// ---------------------------------------------------------------------------
// The reply when every attempt failed
// ---------------------------------------------------------------------------

/// The message of the reply when every attempt failed, given the reason
/// phrase of the last retried status: that status if there was one, else
/// the last network error, else an unknown error.
pub open spec fn failure_message_with(
    last_status: Option<u16>,
    reason: Option<Seq<char>>,
    last_err: Option<Seq<char>>,
    max_retries: u32,
) -> Seq<u8> {
    match last_status {
        Some(s) => encode_utf8("上游返回 "@) + status_text_with(s, reason) + encode_utf8("，重试 "@)
            + decimal(max_retries as nat) + encode_utf8(" 次后仍失败"@),
        None => match last_err {
            Some(e) => encode_utf8("网络错误，重试 "@) + decimal(max_retries as nat) + encode_utf8(
                " 次后仍失败："@,
            ) + encode_utf8(e),
            None => encode_utf8("未知错误"@),
        },
    }
}

/// The JSON body of the reply when every attempt failed, given the reason
/// phrase of the last retried status.
pub open spec fn failure_body_with(
    last_status: Option<u16>,
    reason: Option<Seq<char>>,
    last_err: Option<Seq<char>>,
    max_retries: u32,
) -> Seq<u8> {
    encode_utf8("{\"error\":{\"message\":\""@) + failure_message_with(
        last_status,
        reason,
        last_err,
        max_retries,
    ) + encode_utf8("\",\"type\":\"upstream_error\"}}"@)
}

/// The JSON body of the reply when every attempt failed.
pub open spec fn failure_body(
    last_status: Option<u16>,
    last_err: Option<Seq<char>>,
    max_retries: u32,
) -> Seq<u8> {
    let reason = match last_status {
        Some(s) => canonical_reason(s),
        None => None,
    };
    failure_body_with(last_status, reason, last_err, max_retries)
}

/// The status of the reply when every attempt failed: 502 Bad Gateway.
pub open spec fn failure_status() -> u16 {
    502
}

/// The text of an optional `&str`.
pub open spec fn opt_str(s: Option<&str>) -> Option<Seq<char>> {
    match s {
        Some(t) => Some(t@),
        None => None,
    }
}

/// The JSON body of the reply when every attempt failed, given the reason
/// phrase of the last retried status.
pub fn failure_reply_body(
    last_status: Option<u16>,
    reason: Option<&str>,
    last_err: &Option<String>,
    max_retries: u32,
) -> (r: Vec<u8>)
    ensures
        r@ == failure_body_with(last_status, opt_str(reason), opt_text(*last_err), max_retries),
{
    let mut out: Vec<u8> = Vec::new();
    push_str(&mut out, "{\"error\":{\"message\":\"");
    let ghost head = out@;
    match last_status {
        Some(s) => {
            push_str(&mut out, "上游返回 ");
            push_decimal(&mut out, s as u64);
            push_str(&mut out, " ");
            match reason {
                Some(r) => push_str(&mut out, r),
                None => push_str(&mut out, "<unknown status code>"),
            }
            push_str(&mut out, "，重试 ");
            push_decimal(&mut out, max_retries as u64);
            push_str(&mut out, " 次后仍失败");
        },
        None => match last_err {
            Some(e) => {
                push_str(&mut out, "网络错误，重试 ");
                push_decimal(&mut out, max_retries as u64);
                push_str(&mut out, " 次后仍失败：");
                push_str(&mut out, e.as_str());
            },
            None => {
                push_str(&mut out, "未知错误");
            },
        },
    }
    proof {
        assert(out@ =~= head + failure_message_with(
            last_status,
            opt_str(reason),
            opt_text(*last_err),
            max_retries,
        ));
    }
    push_str(&mut out, "\",\"type\":\"upstream_error\"}}");
    proof {
        assert(out@ =~= failure_body_with(
            last_status,
            opt_str(reason),
            opt_text(*last_err),
            max_retries,
        ));
    }
    out
}

fn build_failure_body(last_status: Option<u16>, last_err: &Option<String>, max_retries: u32) -> (r:
    Vec<u8>)
    ensures
        r@ == failure_body(last_status, opt_text(*last_err), max_retries),
{
    let reason = match last_status {
        Some(s) => status_reason(s),
        None => None,
    };
    failure_reply_body(last_status, reason, last_err, max_retries)
}

/// The text of an optional string.
pub open spec fn opt_text(s: Option<String>) -> Option<Seq<char>> {
    match s {
        Some(t) => Some(t@),
        None => None,
    }
}

// ---------------------------------------------------------------------------
// The state machine
// ---------------------------------------------------------------------------

/// What the loop waits for.
#[derive(Debug, Clone, Copy, PartialEq, Eq, Structural)]
pub enum Phase {
    /// A request has been sent; its reply or failure is awaited.
    Sending,
    /// A reply with a status that is not retried on its own came back; the
    /// business error code in its body is awaited.
    Inspecting { status: u16 },
    /// A reply has been passed on or the attempts are used up.
    Finished,
}

/// What happened to the outside work the loop asked for.
pub enum Event {
    /// The upstream replied with `status`; `is_stream` for an event stream.
    Reply { status: u16, is_stream: bool },
    /// The business error code found in the first part of the reply body.
    BodyCode { code: Option<i64> },
    /// The request failed before a reply came (the error's text).
    NetworkError { message: String },
}

/// The mathematical value of an `Event`.
pub enum EventView {
    Reply { status: u16, is_stream: bool },
    BodyCode { code: Option<i64> },
    NetworkError { message: Seq<char> },
}

impl View for Event {
    type V = EventView;

    open spec fn view(&self) -> EventView {
        match self {
            Event::Reply { status, is_stream } => EventView::Reply {
                status: *status,
                is_stream: *is_stream,
            },
            Event::BodyCode { code } => EventView::BodyCode { code: *code },
            Event::NetworkError { message } => EventView::NetworkError { message: message@ },
        }
    }
}

/// What the loop asks the caller to do next.
pub enum Action {
    /// Send the request again.
    Send,
    /// Read the first part of the reply body and report its error code.
    Inspect,
    /// Pass the reply on to the client.
    Forward,
    /// Answer the client with this status and body.
    Fail { status: u16, body: Vec<u8> },
}

/// The mathematical value of an `Action`.
pub enum ActionView {
    Send,
    Inspect,
    Forward,
    Fail { status: u16, body: Seq<u8> },
}

impl View for Action {
    type V = ActionView;

    open spec fn view(&self) -> ActionView {
        match self {
            Action::Send => ActionView::Send,
            Action::Inspect => ActionView::Inspect,
            Action::Forward => ActionView::Forward,
            Action::Fail { status, body } => ActionView::Fail { status: *status, body: body@ },
        }
    }
}

/// The state of the loop.
pub struct RetryModel {
    /// The status ranges that are retried.
    pub ranges: Seq<(u16, u16)>,
    /// The business error codes that are retried.
    pub codes: Seq<i64>,
    pub max_retries: u32,
    /// Requests sent so far.
    pub attempts: nat,
    /// The status of the last reply that was retried.
    pub last_status: Option<u16>,
    /// The text of the last network error.
    pub last_err: Option<Seq<char>>,
    pub phase: Phase,
}

/// How many requests may be sent in all: the first and `max_retries` more.
pub open spec fn total_attempts(m: RetryModel) -> nat {
    m.max_retries as nat + 1
}

/// The states the loop can be in: at least one and at most all attempts
/// made.
pub open spec fn well_formed(m: RetryModel) -> bool {
    1 <= m.attempts <= total_attempts(m)
}

/// The event is one the phase waits for.
pub open spec fn accepts(phase: Phase, e: EventView) -> bool {
    match phase {
        Phase::Sending => e is Reply || e is NetworkError,
        Phase::Inspecting { .. } => e is BodyCode,
        Phase::Finished => false,
    }
}

/// Send again if an attempt is left, else fail with the last cause.
pub open spec fn retry_or_fail(m: RetryModel) -> (RetryModel, ActionView) {
    if m.attempts < total_attempts(m) {
        (RetryModel { attempts: m.attempts + 1, phase: Phase::Sending, ..m }, ActionView::Send)
    } else {
        (
            RetryModel { phase: Phase::Finished, ..m },
            ActionView::Fail {
                status: failure_status(),
                body: failure_body(m.last_status, m.last_err, m.max_retries),
            },
        )
    }
}

/// One step of the loop.
///
/// - A reply with 504 or 524 is passed on. A reply whose status is in the
///   retried ranges is retried, unless it is an event stream, which is
///   passed on as it stands. Any other reply has its body inspected.
/// - A network error is retried.
/// - An inspected reply whose body holds a retried business code is
///   retried; otherwise it is passed on.
/// - Retrying sends again while attempts are left, and otherwise fails with
///   502 and a message naming the last retried status, else the last
///   network error.
pub open spec fn next(m: RetryModel, e: EventView) -> (RetryModel, ActionView) {
    match e {
        EventView::Reply { status, is_stream } => {
            if always_skipped(status) {
                (RetryModel { phase: Phase::Finished, ..m }, ActionView::Forward)
            } else if in_some_range(m.ranges, status) {
                if is_stream {
                    (
                        RetryModel { phase: Phase::Finished, last_status: Some(status), ..m },
                        ActionView::Forward,
                    )
                } else {
                    retry_or_fail(RetryModel { last_status: Some(status), ..m })
                }
            } else {
                (RetryModel { phase: Phase::Inspecting { status }, ..m }, ActionView::Inspect)
            }
        },
        EventView::NetworkError { message } => retry_or_fail(
            RetryModel { last_err: Some(message), ..m },
        ),
        EventView::BodyCode { code } => {
            match (m.phase, code) {
                (Phase::Inspecting { status }, Some(c)) => {
                    if m.codes.contains(c) {
                        retry_or_fail(RetryModel { last_status: Some(status), ..m })
                    } else {
                        (RetryModel { phase: Phase::Finished, ..m }, ActionView::Forward)
                    }
                },
                _ => (RetryModel { phase: Phase::Finished, ..m }, ActionView::Forward),
            }
        },
    }
}

/// The retry loop of one client request.
pub struct RetryLoop {
    matcher: StatusMatcher,
    codes: Vec<i64>,
    max_retries: u32,
    attempts: u64,
    last_status: Option<u16>,
    last_err: Option<String>,
    phase: Phase,
}

impl View for RetryLoop {
    type V = RetryModel;

    closed spec fn view(&self) -> RetryModel {
        RetryModel {
            ranges: self.matcher@,
            codes: self.codes@,
            max_retries: self.max_retries,
            attempts: self.attempts as nat,
            last_status: self.last_status,
            last_err: opt_text(self.last_err),
            phase: self.phase,
        }
    }
}

impl RetryLoop {
    /// The loop for a request to `ep`, as its first attempt is sent.
    pub fn new(ep: &Endpoint) -> (r: Self)
        ensures
            r@.ranges == effective_ranges(*ep),
            r@.codes == effective_codes(*ep),
            r@.max_retries == ep.max_retries,
            r@.attempts == 1,
            r@.last_status is None,
            r@.last_err is None,
            r@.phase == Phase::Sending,
            well_formed(r@),
    {
        RetryLoop {
            matcher: ep.status_matcher(),
            codes: ep.retry_codes(),
            max_retries: ep.max_retries,
            attempts: 1,
            last_status: None,
            last_err: None,
            phase: Phase::Sending,
        }
    }

    /// What the loop waits for.
    pub fn phase(&self) -> (r: Phase)
        ensures
            r == self@.phase,
    {
        self.phase
    }

    /// The loop still waits for an event.
    pub fn is_waiting(&self) -> (r: bool)
        ensures
            r == !(self@.phase is Finished),
    {
        !matches!(self.phase, Phase::Finished)
    }

    fn code_is_retried(&self, c: i64) -> (r: bool)
        ensures
            r == self@.codes.contains(c),
    {
        let mut i: usize = 0;
        while i < self.codes.len()
            invariant
                i <= self.codes.len(),
                forall|j: int| 0 <= j < i ==> self.codes@[j] != c,
            decreases self.codes.len() - i,
        {
            if self.codes[i] == c {
                proof {
                    assert(self.codes@[i as int] == c);
                }
                return true;
            }
            i += 1;
        }
        false
    }

    fn retry_or_fail(&mut self) -> (r: Action)
        requires
            well_formed(old(self)@),
        ensures
            (final(self)@, r@) == retry_or_fail(old(self)@),
    {
        if self.attempts < self.max_retries as u64 + 1 {
            self.attempts = self.attempts + 1;
            self.phase = Phase::Sending;
            Action::Send
        } else {
            self.phase = Phase::Finished;
            let body = build_failure_body(self.last_status, &self.last_err, self.max_retries);
            Action::Fail { status: 502, body }
        }
    }

    /// Takes in what happened and says what to do next.
    pub fn step(&mut self, e: Event) -> (r: Action)
        requires
            well_formed(old(self)@),
            accepts(old(self)@.phase, e@),
        ensures
            (final(self)@, r@) == next(old(self)@, e@),
            well_formed(final(self)@),
    {
        match e {
            Event::Reply { status, is_stream } => {
                if status == 504 || status == 524 {
                    self.phase = Phase::Finished;
                    Action::Forward
                } else if self.matcher.matches(status) {
                    self.last_status = Some(status);
                    if is_stream {
                        self.phase = Phase::Finished;
                        Action::Forward
                    } else {
                        self.retry_or_fail()
                    }
                } else {
                    self.phase = Phase::Inspecting { status };
                    Action::Inspect
                }
            },
            Event::NetworkError { message } => {
                self.last_err = Some(message);
                self.retry_or_fail()
            },
            Event::BodyCode { code } => {
                match (self.phase, code) {
                    (Phase::Inspecting { status }, Some(c)) => {
                        if self.code_is_retried(c) {
                            self.last_status = Some(status);
                            self.retry_or_fail()
                        } else {
                            self.phase = Phase::Finished;
                            Action::Forward
                        }
                    },
                    _ => {
                        self.phase = Phase::Finished;
                        Action::Forward
                    },
                }
            },
        }
    }
}

// ---------------------------------------------------------------------------
// Laws of the loop
// ---------------------------------------------------------------------------

/// Runs the loop over `events` while it accepts them; gives the final
/// state and how many times it asked to send again.
pub open spec fn run(m: RetryModel, events: Seq<EventView>) -> (RetryModel, nat)
    decreases events.len(),
{
    if events.len() == 0 || !accepts(m.phase, events[0]) {
        (m, 0)
    } else {
        let (m1, a) = next(m, events[0]);
        let (m2, n) = run(m1, events.drop_first());
        (m2, n + if a is Send { 1nat } else { 0nat })
    }
}

/// One step keeps the state well formed and keeps the settings; it counts
/// an attempt exactly when it asks to send, and it fails only once every
/// attempt has been made.
pub proof fn law_step(m: RetryModel, e: EventView)
    requires
        well_formed(m),
        accepts(m.phase, e),
    ensures
        well_formed(next(m, e).0),
        next(m, e).0.ranges == m.ranges,
        next(m, e).0.codes == m.codes,
        next(m, e).0.max_retries == m.max_retries,
        next(m, e).0.attempts == m.attempts + if next(m, e).1 is Send { 1nat } else { 0nat },
        next(m, e).1 is Send ==> next(m, e).0.phase == Phase::Sending,
        next(m, e).1 is Inspect ==> next(m, e).0.phase is Inspecting,
        (next(m, e).1 is Forward || next(m, e).1 is Fail) ==> next(m, e).0.phase
            == Phase::Finished,
        next(m, e).1 is Fail ==> next(m, e).0.attempts == total_attempts(m),
{
}

/// However the upstream behaves, a client request causes at most
/// `max_retries + 1` requests upstream: the first and one per `Send`.
pub proof fn law_attempts_bounded(m: RetryModel, events: Seq<EventView>)
    requires
        well_formed(m),
    ensures
        m.attempts + run(m, events).1 <= total_attempts(m),
        well_formed(run(m, events).0),
        run(m, events).0.attempts == m.attempts + run(m, events).1,
        run(m, events).0.max_retries == m.max_retries,
    decreases events.len(),
{
    if events.len() > 0 && accepts(m.phase, events[0]) {
        law_step(m, events[0]);
        let m1 = next(m, events[0]).0;
        law_attempts_bounded(m1, events.drop_first());
    }
}

/// Replies with status 504 or 524 are never retried, whatever the
/// configured ranges: they are passed on.
pub proof fn law_never_retries_504_524(m: RetryModel, is_stream: bool)
    ensures
        next(m, EventView::Reply { status: 504, is_stream }).1 is Forward,
        next(m, EventView::Reply { status: 524, is_stream }).1 is Forward,
{
}

/// A reply whose status is not retried and whose body holds no retried
/// business code is passed on at once.
pub proof fn law_plain_reply_is_forwarded(m: RetryModel, status: u16, is_stream: bool, code: Option<
    i64,
>)
    requires
        !in_some_range(m.ranges, status),
        !always_skipped(status),
        code matches Some(c) ==> !m.codes.contains(c),
    ensures
        next(m, EventView::Reply { status, is_stream }).1 is Inspect,
        next(
            next(m, EventView::Reply { status, is_stream }).0,
            EventView::BodyCode { code },
        ).1 is Forward,
{
}

/// A reply with a retried status, or a network error, is retried while
/// attempts are left (an event stream with a retried status excepted, which
/// is passed on).
pub proof fn law_retries_while_attempts_left(m: RetryModel, status: u16, message: Seq<char>)
    requires
        well_formed(m),
        m.attempts < total_attempts(m),
        in_some_range(m.ranges, status),
        !always_skipped(status),
    ensures
        next(m, EventView::Reply { status, is_stream: false }).1 is Send,
        next(m, EventView::Reply { status, is_stream: true }).1 is Forward,
        next(m, EventView::NetworkError { message }).1 is Send,
{
}

/// When the attempts are used up, the client gets 502 with a message that
/// names the last retried status, or else the last network error.
pub proof fn law_failure_reply(m: RetryModel, e: EventView)
    requires
        well_formed(m),
        accepts(m.phase, e),
        next(m, e).1 is Fail,
    ensures
        next(m, e).1 == (ActionView::Fail {
            status: 502,
            body: failure_body(
                next(m, e).0.last_status,
                next(m, e).0.last_err,
                m.max_retries,
            ),
        }),
        m.attempts == total_attempts(m),
{
}

/// After a reply with any status has been inspected, a retried business
/// code sends the request again while attempts are left (recording that
/// status as the cause), and fails with 502 once they are used up; a code
/// that is not retried, or no code, passes the reply on.
pub proof fn law_business_code_decides(m: RetryModel, status: u16, code: Option<i64>)
    requires
        well_formed(m),
        m.phase == (Phase::Inspecting { status }),
    ensures
        code matches Some(c) && m.codes.contains(c) && m.attempts < total_attempts(m) ==> next(
            m,
            EventView::BodyCode { code },
        ).1 is Send && next(m, EventView::BodyCode { code }).0.last_status == Some(status)
            && next(m, EventView::BodyCode { code }).0.attempts == m.attempts + 1,
        code matches Some(c) && m.codes.contains(c) && m.attempts == total_attempts(m) ==> next(
            m,
            EventView::BodyCode { code },
        ).1 is Fail,
        (code is None || (code matches Some(c) && !m.codes.contains(c))) ==> next(
            m,
            EventView::BodyCode { code },
        ).1 is Forward,
{
}

} // verus!
