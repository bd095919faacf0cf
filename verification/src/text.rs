//! Character-level helpers shared by the parsers of this crate: decimal
//! numbers as `str::parse` reads them, `split_once`, prefixes, substrings,
//! Unicode whitespace trimming, and decimal rendering.
use vstd::prelude::*;

verus! {

// ---------------------------------------------------------------------------
// Copying characters
// ---------------------------------------------------------------------------

/// Copies the characters of `s` into a vector.
pub fn chars_of(s: &str) -> (out: Vec<char>)
    ensures
        out@ == s@,
{
    let mut out: Vec<char> = Vec::new();
    for c in it: s.chars()
        invariant
            out@ == it.seq().take(it.index() as int),
            it.seq() == s@,
    {
        out.push(c);
    }
    out
}

/// Copies `v[lo..hi]` into a new vector.
pub fn copy_range(v: &Vec<char>, lo: usize, hi: usize) -> (out: Vec<char>)
    requires
        lo <= hi <= v.len(),
    ensures
        out@ == v@.subrange(lo as int, hi as int),
{
    let mut out: Vec<char> = Vec::new();
    let mut i = lo;
    while i < hi
        invariant
            lo <= i <= hi <= v.len(),
            out@ == v@.subrange(lo as int, i as int),
        decreases hi - i,
    {
        out.push(v[i]);
        proof {
            assert(v@.subrange(lo as int, i + 1) =~= v@.subrange(lo as int, i as int).push(v@[i as int]));
        }
        i += 1;
    }
    out
}

// ---------------------------------------------------------------------------
// Decimal digits
// ---------------------------------------------------------------------------

/// `c` is one of the ASCII digits `0`..`9`.
pub open spec fn is_digit(c: char) -> bool {
    48 <= (c as u32) && (c as u32) <= 57
}

/// The value of the ASCII digit `c`.
pub open spec fn digit_value(c: char) -> nat {
    ((c as u32) - 48) as nat
}

/// Every character of `s` is an ASCII digit.
pub open spec fn all_digits(s: Seq<char>) -> bool {
    forall|i: int| 0 <= i < s.len() ==> #[trigger] is_digit(s[i])
}

/// The number that the digit string `s` spells in base ten.
pub open spec fn digits_value(s: Seq<char>) -> nat
    decreases s.len(),
{
    if s.len() == 0 {
        0
    } else {
        digits_value(s.drop_last()) * 10 + digit_value(s.last())
    }
}

/// A digit string is worth at least as much as any of its prefixes.
pub proof fn lemma_digits_prefix_le(s: Seq<char>, k: int)
    requires
        0 <= k <= s.len(),
        all_digits(s),
    ensures
        digits_value(s.take(k)) <= digits_value(s),
    decreases s.len(),
{
    if k < s.len() {
        assert(all_digits(s.drop_last()));
        lemma_digits_prefix_le(s.drop_last(), k);
        assert(s.drop_last().take(k) =~= s.take(k));
    } else {
        assert(s.take(k) =~= s);
    }
}

/// What `str::parse::<u16>` gives for `s`: an optional `+`, then one or
/// more ASCII digits whose value fits in a `u16`.
pub open spec fn parse_u16_spec(s: Seq<char>) -> Option<u16> {
    let d = if s.len() > 0 && s[0] == '+' { s.drop_first() } else { s };
    if d.len() == 0 || !all_digits(d) || digits_value(d) > 65535 {
        None
    } else {
        Some(digits_value(d) as u16)
    }
}

/// What `str::parse::<i64>` gives for `s`: an optional sign, then one or
/// more ASCII digits whose signed value fits in an `i64`.
pub open spec fn parse_i64_spec(s: Seq<char>) -> Option<i64> {
    let neg = s.len() > 0 && s[0] == '-';
    let d = if s.len() > 0 && (s[0] == '-' || s[0] == '+') { s.drop_first() } else { s };
    if d.len() == 0 || !all_digits(d) {
        None
    } else if neg {
        if digits_value(d) <= 9223372036854775808 {
            Some((0 - digits_value(d)) as i64)
        } else {
            None
        }
    } else if digits_value(d) <= 9223372036854775807 {
        Some(digits_value(d) as i64)
    } else {
        None
    }
}

/// Reads the digits `v[start..hi]` as a number no larger than `limit`;
/// `None` when a character is not a digit or the value exceeds `limit`.
fn read_digits(v: &Vec<char>, start: usize, hi: usize, limit: u64) -> (r: Option<u64>)
    requires
        start <= hi <= v.len(),
        limit >= 9,
    ensures
        ({
            let d = v@.subrange(start as int, hi as int);
            match r {
                Some(n) => all_digits(d) && n == digits_value(d) && n <= limit,
                None => !all_digits(d) || digits_value(d) > limit,
            }
        }),
{
    let ghost d = v@.subrange(start as int, hi as int);
    let mut i = start;
    let mut acc: u64 = 0;
    while i < hi
        invariant
            start <= i <= hi <= v.len(),
            d == v@.subrange(start as int, hi as int),
            all_digits(v@.subrange(start as int, i as int)),
            acc == digits_value(v@.subrange(start as int, i as int)),
            acc <= limit,
            limit >= 9,
        decreases hi - i,
    {
        let c = v[i];
        let code = c as u32;
        if code < 48 || code > 57 {
            proof {
                assert(!is_digit(d[i - start]));
            }
            return None;
        }
        let ghost prev = v@.subrange(start as int, i as int);
        let ghost next = v@.subrange(start as int, i + 1);
        proof {
            assert(next.drop_last() =~= prev);
            assert(next.last() == c);
        }
        let dv = (code - 48) as u64;
        if acc > (limit - dv) / 10 {
            proof {
                assert(digits_value(next) == acc * 10 + dv);
                assert(digits_value(next) > limit) by (nonlinear_arith)
                    requires
                        acc > (limit - dv) / 10,
                        digits_value(next) == acc * 10 + dv,
                        dv <= limit || dv > limit,
                ;
                if all_digits(d) {
                    lemma_digits_prefix_le(d, i + 1 - start);
                    assert(d.take(i + 1 - start) =~= next);
                }
            }
            return None;
        }
        proof {
            assert(acc * 10 + dv <= limit) by (nonlinear_arith)
                requires
                    acc <= (limit - dv) / 10,
                    dv <= limit,
            ;
        }
        acc = acc * 10 + dv;
        proof {
            assert forall|j: int| 0 <= j < next.len() implies #[trigger] is_digit(next[j]) by {
                if j < prev.len() {
                    assert(next[j] == prev[j]);
                }
            }
        }
        i += 1;
    }
    Some(acc)
}

/// Parses `v[lo..hi]` as `str::parse::<u16>` does.
pub fn parse_u16(v: &Vec<char>, lo: usize, hi: usize) -> (r: Option<u16>)
    requires
        lo <= hi <= v.len(),
    ensures
        r == parse_u16_spec(v@.subrange(lo as int, hi as int)),
{
    let ghost s = v@.subrange(lo as int, hi as int);
    let mut start = lo;
    if lo < hi && v[lo] == '+' {
        start = lo + 1;
    }
    proof {
        let dd = if s.len() > 0 && s[0] == '+' { s.drop_first() } else { s };
        assert(dd =~= v@.subrange(start as int, hi as int));
    }
    if start == hi {
        return None;
    }
    match read_digits(v, start, hi, 65535) {
        Some(n) => Some(n as u16),
        None => None,
    }
}

/// Parses `v[lo..hi]` as `str::parse::<i64>` does.
pub fn parse_i64(v: &Vec<char>, lo: usize, hi: usize) -> (r: Option<i64>)
    requires
        lo <= hi <= v.len(),
    ensures
        r == parse_i64_spec(v@.subrange(lo as int, hi as int)),
{
    let ghost s = v@.subrange(lo as int, hi as int);
    let neg = lo < hi && v[lo] == '-';
    let mut start = lo;
    if lo < hi && (v[lo] == '-' || v[lo] == '+') {
        start = lo + 1;
    }
    proof {
        let dd = if s.len() > 0 && (s[0] == '-' || s[0] == '+') { s.drop_first() } else { s };
        assert(dd =~= v@.subrange(start as int, hi as int));
    }
    if start == hi {
        return None;
    }
    if neg {
        match read_digits(v, start, hi, 9223372036854775808) {
            Some(n) => {
                if n == 9223372036854775808 {
                    Some(i64::MIN)
                } else {
                    let m = n as i64;
                    Some(-m)
                }
            },
            None => None,
        }
    } else {
        match read_digits(v, start, hi, 9223372036854775807) {
            Some(n) => Some(n as i64),
            None => None,
        }
    }
}

// ---------------------------------------------------------------------------
// Searching
// ---------------------------------------------------------------------------

/// `i` is the first position of `c` in `s`.
pub open spec fn is_first_index(s: Seq<char>, c: char, i: int) -> bool {
    &&& 0 <= i < s.len()
    &&& s[i] == c
    &&& forall|j: int| 0 <= j < i ==> s[j] != c
}

/// The first position of `c` in `s`, if `c` occurs.
pub open spec fn first_index_of(s: Seq<char>, c: char) -> Option<int> {
    if exists|i: int| is_first_index(s, c, i) {
        Some(choose|i: int| is_first_index(s, c, i))
    } else {
        None
    }
}

/// The first position is unique.
pub proof fn lemma_first_index_unique(s: Seq<char>, c: char, i: int)
    requires
        is_first_index(s, c, i),
    ensures
        first_index_of(s, c) == Some(i),
{
    let k = choose|k: int| is_first_index(s, c, k);
    assert(is_first_index(s, c, k));
    if k < i {
        assert(s[k] != c);
    } else if i < k {
        assert(s[i] != c);
    }
}

/// Without an occurrence there is no first position.
pub proof fn lemma_first_index_none(s: Seq<char>, c: char)
    requires
        forall|j: int| 0 <= j < s.len() ==> s[j] != c,
    ensures
        first_index_of(s, c) is None,
{
}

/// Finds the first `c` in `v[lo..hi]`, as an absolute index.
pub fn find_char(v: &Vec<char>, lo: usize, hi: usize, c: char) -> (r: Option<usize>)
    requires
        lo <= hi <= v.len(),
    ensures
        match r {
            Some(i) => lo <= i < hi && first_index_of(v@.subrange(lo as int, hi as int), c) == Some(
                i - lo,
            ),
            None => first_index_of(v@.subrange(lo as int, hi as int), c) is None,
        },
{
    let ghost s = v@.subrange(lo as int, hi as int);
    let mut i = lo;
    while i < hi
        invariant
            lo <= i <= hi <= v.len(),
            s == v@.subrange(lo as int, hi as int),
            forall|j: int| 0 <= j < i - lo ==> s[j] != c,
        decreases hi - i,
    {
        if v[i] == c {
            proof {
                assert(s[i - lo] == c);
                lemma_first_index_unique(s, c, i - lo);
            }
            return Some(i);
        }
        i += 1;
    }
    proof {
        lemma_first_index_none(s, c);
    }
    None
}

/// `str::split_once(c)`: the text before and after the first `c`.
pub open spec fn split_once_spec(s: Seq<char>, c: char) -> Option<(Seq<char>, Seq<char>)> {
    match first_index_of(s, c) {
        Some(i) => Some((s.take(i), s.skip(i + 1))),
        None => None,
    }
}

/// `s` begins with `p`.
pub open spec fn starts_with(s: Seq<char>, p: Seq<char>) -> bool {
    p.len() <= s.len() && s.take(p.len() as int) == p
}

/// Whether `v[lo..hi]` begins with `p`.
pub fn starts_with_at(v: &Vec<char>, lo: usize, hi: usize, p: &Vec<char>) -> (r: bool)
    requires
        lo <= hi <= v.len(),
    ensures
        r == starts_with(v@.subrange(lo as int, hi as int), p@),
{
    let ghost s = v@.subrange(lo as int, hi as int);
    if p.len() > hi - lo {
        return false;
    }
    let mut k: usize = 0;
    while k < p.len()
        invariant
            lo <= hi <= v.len(),
            p.len() <= hi - lo,
            s == v@.subrange(lo as int, hi as int),
            k <= p.len(),
            forall|j: int| 0 <= j < k ==> s[j] == p@[j],
        decreases p.len() - k,
    {
        if v[lo + k] != p[k] {
            proof {
                assert(s.take(p.len() as int)[k as int] != p@[k as int]);
            }
            return false;
        }
        k += 1;
    }
    proof {
        assert(s.take(p.len() as int) =~= p@);
    }
    true
}

/// `needle` occurs in `hay` as a contiguous run.
pub open spec fn contains_seq(hay: Seq<char>, needle: Seq<char>) -> bool {
    exists|i: int|
        0 <= i && i + needle.len() <= hay.len() && #[trigger] hay.subrange(i, i + needle.len())
            == needle
}

/// Whether `needle` occurs in `hay`.
pub fn contains_chars(hay: &Vec<char>, needle: &Vec<char>) -> (r: bool)
    ensures
        r == contains_seq(hay@, needle@),
{
    if needle.len() == 0 {
        proof {
            assert(hay@.subrange(0, 0 + needle@.len() as int) =~= needle@);
        }
        return true;
    }
    if needle.len() > hay.len() {
        return false;
    }
    let last = hay.len() - needle.len();
    let mut i: usize = 0;
    while i <= last
        invariant
            last == hay.len() - needle.len(),
            0 < needle.len() <= hay.len(),
            forall|j: int|
                0 <= j < i ==> #[trigger] hay@.subrange(j, j + needle.len()) != needle@,
        decreases last + 1 - i,
    {
        if starts_with_at(hay, i, hay.len(), needle) {
            proof {
                assert(hay@.subrange(i as int, hay.len() as int).take(needle.len() as int)
                    =~= hay@.subrange(i as int, i + needle.len()));
            }
            return true;
        }
        proof {
            assert(hay@.subrange(i as int, hay.len() as int).take(needle.len() as int)
                =~= hay@.subrange(i as int, i + needle.len()));
        }
        i += 1;
    }
    proof {
        assert forall|j: int|
            0 <= j && j + needle.len() <= hay.len() implies #[trigger] hay@.subrange(
            j,
            j + needle.len(),
        ) != needle@ by {
            assert(j < i);
        }
    }
    false
}

/// `s` with every leading copy of a non-empty `p` removed, as
/// `str::trim_start_matches` does.
pub open spec fn strip_all_prefix(s: Seq<char>, p: Seq<char>) -> Seq<char>
    decreases s.len(),
{
    if p.len() > 0 && starts_with(s, p) {
        strip_all_prefix(s.skip(p.len() as int), p)
    } else {
        s
    }
}

/// Skips every leading copy of the non-empty `p` in `v[lo..hi]`; returns the
/// position where the rest begins.
pub fn skip_all_prefix(v: &Vec<char>, lo: usize, hi: usize, p: &Vec<char>) -> (r: usize)
    requires
        lo <= hi <= v.len(),
        p.len() > 0,
    ensures
        lo <= r <= hi,
        v@.subrange(r as int, hi as int) == strip_all_prefix(
            v@.subrange(lo as int, hi as int),
            p@,
        ),
{
    let mut i = lo;
    while starts_with_at(v, i, hi, p)
        invariant
            lo <= i <= hi <= v.len(),
            p.len() > 0,
            strip_all_prefix(v@.subrange(lo as int, hi as int), p@) == strip_all_prefix(
                v@.subrange(i as int, hi as int),
                p@,
            ),
        decreases hi - i,
    {
        proof {
            assert(v@.subrange(i as int, hi as int).skip(p.len() as int) =~= v@.subrange(
                i + p.len(),
                hi as int,
            ));
        }
        i = i + p.len();
    }
    i
}

// ---------------------------------------------------------------------------
// Whitespace
// ---------------------------------------------------------------------------

/// The characters with the Unicode `White_Space` property, which is what
/// `char::is_whitespace` tests.
pub open spec fn is_unicode_whitespace(c: char) -> bool {
    let u = c as u32;
    ||| 9 <= u && u <= 13
    ||| u == 32
    ||| u == 0x85
    ||| u == 0xA0
    ||| u == 0x1680
    ||| 0x2000 <= u && u <= 0x200A
    ||| u == 0x2028
    ||| u == 0x2029
    ||| u == 0x202F
    ||| u == 0x205F
    ||| u == 0x3000
}

/// Whether `c` is Unicode whitespace.
pub fn is_whitespace_char(c: char) -> (r: bool)
    ensures
        r == is_unicode_whitespace(c),
{
    let u = c as u32;
    (9 <= u && u <= 13) || u == 32 || u == 0x85 || u == 0xA0 || u == 0x1680 || (0x2000 <= u && u
        <= 0x200A) || u == 0x2028 || u == 0x2029 || u == 0x202F || u == 0x205F || u == 0x3000
}

/// `str::trim_start`.
pub open spec fn trim_start(s: Seq<char>) -> Seq<char>
    decreases s.len(),
{
    if s.len() > 0 && is_unicode_whitespace(s[0]) {
        trim_start(s.drop_first())
    } else {
        s
    }
}

/// `str::trim_end`.
pub open spec fn trim_end(s: Seq<char>) -> Seq<char>
    decreases s.len(),
{
    if s.len() > 0 && is_unicode_whitespace(s.last()) {
        trim_end(s.drop_last())
    } else {
        s
    }
}

/// `str::trim`: leading and trailing Unicode whitespace removed.
pub open spec fn trim(s: Seq<char>) -> Seq<char> {
    trim_end(trim_start(s))
}

/// The bounds of `trim(v[lo..hi])` within `v`.
pub fn trim_bounds(v: &Vec<char>, lo: usize, hi: usize) -> (r: (usize, usize))
    requires
        lo <= hi <= v.len(),
    ensures
        lo <= r.0 <= r.1 <= hi,
        v@.subrange(r.0 as int, r.1 as int) == trim(v@.subrange(lo as int, hi as int)),
{
    let mut a = lo;
    while a < hi && is_whitespace_char(v[a])
        invariant
            lo <= a <= hi <= v.len(),
            trim_start(v@.subrange(lo as int, hi as int)) == trim_start(
                v@.subrange(a as int, hi as int),
            ),
        decreases hi - a,
    {
        proof {
            assert(v@.subrange(a as int, hi as int).drop_first() =~= v@.subrange(
                a + 1,
                hi as int,
            ));
        }
        a += 1;
    }
    let mut b = hi;
    while b > a && is_whitespace_char(v[b - 1])
        invariant
            lo <= a <= b <= hi <= v.len(),
            trim_end(v@.subrange(a as int, hi as int)) == trim_end(
                v@.subrange(a as int, b as int),
            ),
        decreases b - a,
    {
        proof {
            assert(v@.subrange(a as int, b as int).drop_last() =~= v@.subrange(
                a as int,
                b - 1,
            ));
        }
        b -= 1;
    }
    (a, b)
}

/// `c` equals the lowercase ASCII character `l` when ASCII letters are
/// folded to lower case.
pub open spec fn ascii_folds_to(c: char, l: char) -> bool {
    c == l || (65 <= (c as u32) && (c as u32) <= 90 && (c as u32) + 32 == (l as u32))
}

/// `name`, with ASCII letters folded to lower case, equals the lowercase
/// ASCII literal `lit`.
pub open spec fn eq_ascii_folded(name: Seq<char>, lit: Seq<char>) -> bool {
    &&& name.len() == lit.len()
    &&& forall|i: int| 0 <= i < name.len() ==> ascii_folds_to(#[trigger] name[i], lit[i])
}

/// Whether `name` equals the lowercase ASCII literal `lit` once its ASCII
/// letters are folded to lower case.
pub fn name_is(name: &Vec<char>, lit: &Vec<char>) -> (r: bool)
    ensures
        r == eq_ascii_folded(name@, lit@),
{
    if name.len() != lit.len() {
        return false;
    }
    let mut i: usize = 0;
    while i < name.len()
        invariant
            name.len() == lit.len(),
            i <= name.len(),
            forall|j: int| 0 <= j < i ==> ascii_folds_to(#[trigger] name@[j], lit@[j]),
        decreases name.len() - i,
    {
        let c = name[i];
        let l = lit[i];
        let cu = c as u32;
        let lu = l as u32;
        if !(c == l || (65 <= cu && cu <= 90 && cu + 32 == lu)) {
            return false;
        }
        i += 1;
    }
    true
}

// ---------------------------------------------------------------------------
// Rendering numbers
// ---------------------------------------------------------------------------

/// The ASCII decimal rendering of `n`, as `Display` prints an unsigned
/// integer.
pub open spec fn decimal(n: nat) -> Seq<u8>
    decreases n,
{
    if n < 10 {
        seq![(48 + n) as u8]
    } else {
        decimal(n / 10).push((48 + n % 10) as u8)
    }
}

/// Appends the decimal rendering of `n` to `out`.
pub fn push_decimal(out: &mut Vec<u8>, n: u64)
    ensures
        final(out)@ == old(out)@ + decimal(n as nat),
    decreases n,
{
    if n >= 10 {
        push_decimal(out, n / 10);
    }
    let d = (n % 10) as u8;
    out.push(48 + d);
    proof {
        if n >= 10 {
            assert(old(out)@ + decimal(n as nat) =~= old(out)@ + decimal((n / 10) as nat) + seq![
                (48 + n % 10) as u8,
            ]);
        } else {
            assert(old(out)@ + decimal(n as nat) =~= old(out)@ + seq![(48 + n) as u8]);
        }
    }
}

/// Appends all bytes of `b` to `out`.
pub fn push_bytes(out: &mut Vec<u8>, b: &[u8])
    ensures
        final(out)@ == old(out)@ + b@,
{
    let mut i: usize = 0;
    while i < b.len()
        invariant
            i <= b.len(),
            out@ == old(out)@ + b@.take(i as int),
        decreases b.len() - i,
    {
        out.push(b[i]);
        proof {
            assert(b@.take(i + 1) =~= b@.take(i as int).push(b@[i as int]));
        }
        i += 1;
    }
    proof {
        assert(b@.take(b.len() as int) =~= b@);
    }
}

/// Appends the UTF-8 bytes of `s` to `out`.
pub fn push_str(out: &mut Vec<u8>, s: &str)
    ensures
        final(out)@ == old(out)@ + vstd::utf8::encode_utf8(s@),
{
    push_bytes(out, s.as_bytes());
}

// ---------------------------------------------------------------------------
// Lines
// ---------------------------------------------------------------------------

/// `line` without one trailing carriage return.
pub open spec fn strip_cr(line: Seq<char>) -> Seq<char> {
    if line.len() > 0 && line.last() == '\r' {
        line.drop_last()
    } else {
        line
    }
}

/// `str::lines`: the text split at each `\n`, a `\r` just before a `\n`
/// dropped; a final line without `\n` is kept as it is, and a text that
/// ends with `\n` has no empty last line.
pub open spec fn lines_of(t: Seq<char>) -> Seq<Seq<char>>
    decreases t.len(),
{
    if t.len() == 0 {
        seq![]
    } else {
        match first_index_of(t, '\n') {
            Some(i) => if 0 <= i < t.len() {
                seq![strip_cr(t.take(i))] + lines_of(t.skip(i + 1))
            } else {
                seq![]
            },
            None => seq![t],
        }
    }
}

/// The first index returned by `first_index_of` is an occurrence.
pub proof fn lemma_first_index_some(s: Seq<char>, c: char)
    requires
        first_index_of(s, c) is Some,
    ensures
        is_first_index(s, c, first_index_of(s, c)->0),
{
}

/// `s` without every trailing `c`, as `str::trim_end_matches(c)` gives it.
pub open spec fn trim_end_char(s: Seq<char>, c: char) -> Seq<char>
    decreases s.len(),
{
    if s.len() > 0 && s.last() == c {
        trim_end_char(s.drop_last(), c)
    } else {
        s
    }
}

/// The length of `trim_end_char(v[0..hi], c)`.
pub fn trim_end_len(v: &Vec<char>, hi: usize, c: char) -> (r: usize)
    requires
        hi <= v.len(),
    ensures
        r <= hi,
        v@.subrange(0, r as int) == trim_end_char(v@.subrange(0, hi as int), c),
{
    let mut b = hi;
    while b > 0 && v[b - 1] == c
        invariant
            b <= hi <= v.len(),
            trim_end_char(v@.subrange(0, hi as int), c) == trim_end_char(
                v@.subrange(0, b as int),
                c,
            ),
        decreases b,
    {
        proof {
            assert(v@.subrange(0, b as int).drop_last() =~= v@.subrange(0, b - 1));
        }
        b -= 1;
    }
    b
}

} // verus!
