//! The three client protocols and how a request path selects one.
//!
//! Routing is by path prefix: `/v1` is OpenAI, `/v2` Anthropic and `/v3`
//! Responses; each protocol is passed through unchanged.
use vstd::prelude::*;
use crate::text::{chars_of, skip_all_prefix, starts_with, starts_with_at, strip_all_prefix};

verus! {

/// The wire protocol of a request.
#[derive(Debug, Clone, Copy, PartialEq, Eq, Structural)]
pub enum Protocol {
    OpenAI,
    Anthropic,
    Responses,
}

/// The protocol that a request path selects: leading `/` are dropped, then
/// `v1`, `v2` or `v3` must begin what is left.
pub open spec fn path_protocol(path: Seq<char>) -> Option<Protocol> {
    let p = strip_all_prefix(path, seq!['/']);
    if starts_with(p, seq!['v', '1']) {
        Some(Protocol::OpenAI)
    } else if starts_with(p, seq!['v', '2']) {
        Some(Protocol::Anthropic)
    } else if starts_with(p, seq!['v', '3']) {
        Some(Protocol::Responses)
    } else {
        None
    }
}

/// The path suffix that `path_mode = append` adds for a protocol.
pub open spec fn suffix_of(p: Protocol) -> Seq<char> {
    match p {
        Protocol::OpenAI => "/chat/completions"@,
        Protocol::Anthropic => "/v1/messages"@,
        Protocol::Responses => "/responses"@,
    }
}

impl Protocol {
    /// The protocol of a request path, if its prefix names one.
    pub fn from_path(path: &str) -> (r: Option<Self>)
        ensures
            r == path_protocol(path@),
    {
        let v = chars_of(path);
        let n = v.len();
        let slash: Vec<char> = vec!['/'];
        let start = skip_all_prefix(&v, 0, n, &slash);
        proof {
            assert(v@.subrange(0, n as int) =~= path@);
        }
        let v1: Vec<char> = vec!['v', '1'];
        let v2: Vec<char> = vec!['v', '2'];
        let v3: Vec<char> = vec!['v', '3'];
        proof {
            assert(slash@ =~= seq!['/']);
            assert(v1@ =~= seq!['v', '1']);
            assert(v2@ =~= seq!['v', '2']);
            assert(v3@ =~= seq!['v', '3']);
        }
        if starts_with_at(&v, start, n, &v1) {
            Some(Protocol::OpenAI)
        } else if starts_with_at(&v, start, n, &v2) {
            Some(Protocol::Anthropic)
        } else if starts_with_at(&v, start, n, &v3) {
            Some(Protocol::Responses)
        } else {
            None
        }
    }

    /// The path suffix appended to `base_url` in `append` mode.
    pub fn append_suffix(&self) -> (r: &'static str)
        ensures
            r@ == suffix_of(*self),
    {
        match self {
            Protocol::OpenAI => "/chat/completions",
            Protocol::Anthropic => "/v1/messages",
            Protocol::Responses => "/responses",
        }
    }
}

/// Paths beginning with `/v1`, `/v2` and `/v3` (any number of leading `/`)
/// select OpenAI, Anthropic and Responses; a path whose first non-`/`
/// characters are not `v1`, `v2` or `v3` selects none.
pub proof fn law_routing_by_prefix(rest: Seq<char>)
    ensures
        path_protocol(seq!['/', 'v', '1'] + rest) == Some(Protocol::OpenAI),
        path_protocol(seq!['/', 'v', '2'] + rest) == Some(Protocol::Anthropic),
        path_protocol(seq!['/', 'v', '3'] + rest) == Some(Protocol::Responses),
        path_protocol(seq!['v', '1'] + rest) == Some(Protocol::OpenAI),
{
    let s = seq!['/'];
    let a = seq!['/', 'v', '1'] + rest;
    let b = seq!['/', 'v', '2'] + rest;
    let c = seq!['/', 'v', '3'] + rest;
    let d = seq!['v', '1'] + rest;
    assert(a.take(1) =~= s);
    assert(b.take(1) =~= s);
    assert(c.take(1) =~= s);
    assert(a.skip(1) =~= d);
    assert(b.skip(1) =~= seq!['v', '2'] + rest);
    assert(c.skip(1) =~= seq!['v', '3'] + rest);
    assert(d[0] == 'v');
    assert(d.take(1)[0] != s[0]);
    assert(d.take(2) =~= seq!['v', '1']);
    assert((seq!['v', '2'] + rest).take(1)[0] != s[0]);
    assert((seq!['v', '2'] + rest).take(2) =~= seq!['v', '2']);
    assert((seq!['v', '3'] + rest).take(1)[0] != s[0]);
    assert((seq!['v', '3'] + rest).take(2) =~= seq!['v', '3']);
    assert(seq!['v', '2'] != seq!['v', '1']);
    assert(seq!['v', '3'] != seq!['v', '1']);
    assert(seq!['v', '3'] != seq!['v', '2']);
    assert((seq!['v', '2'] + rest).take(2)[1] != seq!['v', '1'][1]);
    assert((seq!['v', '3'] + rest).take(2)[1] != seq!['v', '1'][1]);
    assert((seq!['v', '3'] + rest).take(2)[1] != seq!['v', '2'][1]);
    assert(strip_all_prefix(seq!['v', '2'] + rest, s) == seq!['v', '2'] + rest);
    assert(strip_all_prefix(seq!['v', '3'] + rest, s) == seq!['v', '3'] + rest);
}

} // verus!
