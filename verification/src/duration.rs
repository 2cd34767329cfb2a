//! Parsing of human written durations such as `90s`, `5min` or `1h30m` for the command line.
//!
//! The parser works on the UTF-8 bytes of the input. A duration is a sequence of parts, each a
//! decimal number followed by a unit; ASCII whitespace may precede a number and follow it. The
//! unit ends where the next digit starts. The units are `ms`/`millis`, `s`/`sec`/`seconds`,
//! `m`/`min`/`minutes` and `h`/`hr`/`hrs`/`hour`/`hours`. Results are in whole milliseconds.
//!
//! After a number, the whitespace is skipped first and the unit's end is then looked up at the
//! position of the next digit counted from before the whitespace, so the unit is cut a few bytes
//! too late when whitespace was skipped: `1 s` cuts past the end of the input, which is a hard
//! error. Such inputs, and inputs whose parts overflow (the minute and hour multiplications are
//! done in 64 bits, and the total must fit a `Duration`), are the inputs on which
//! [`parse_duration`] must not be called; [`duration_parse_panics`] tells them apart.

use vstd::prelude::*;
use vstd::string::*;

verus! {

/// ASCII whitespace as `u8::is_ascii_whitespace` defines it.
pub open spec fn is_ws(b: u8) -> bool {
    b == 32 || b == 9 || b == 10 || b == 12 || b == 13
}

/// An ASCII decimal digit.
pub open spec fn is_digit(b: u8) -> bool {
    48 <= b <= 57
}

/// The predicate [`is_ws`].
pub open spec fn ws_pred() -> spec_fn(u8) -> bool {
    |b: u8| is_ws(b)
}

/// The predicate [`is_digit`].
pub open spec fn digit_pred() -> spec_fn(u8) -> bool {
    |b: u8| is_digit(b)
}

/// The negation of [`is_digit`].
pub open spec fn non_digit_pred() -> spec_fn(u8) -> bool {
    |b: u8| !is_digit(b)
}

/// Whether byte index `i` starts a character of the UTF-8 text `s` (or is its end).
pub open spec fn is_char_start(s: Seq<u8>, i: int) -> bool {
    i == s.len() || (0 <= i < s.len() && !(0x80 <= s[i] < 0xC0))
}

/// The number of leading bytes of `s` that satisfy `p`.
pub open spec fn count_leading(s: Seq<u8>, p: spec_fn(u8) -> bool) -> nat
    decreases s.len(),
{
    if s.len() > 0 && p(s[0]) {
        1 + count_leading(s.drop_first(), p)
    } else {
        0
    }
}

/// The value of a run of decimal digits.
pub open spec fn digits_value(s: Seq<u8>) -> int
    decreases s.len(),
{
    if s.len() == 0 {
        0
    } else {
        digits_value(s.drop_last()) * 10 + (s.last() - 48)
    }
}

/// The largest whole number of milliseconds that a `Duration` holds.
pub open spec fn max_duration_millis() -> int {
    (u64::MAX + 1) * 1000 - 1
}

/// The units of a duration part.
pub enum DurationUnit {
    Millis,
    Seconds,
    Minutes,
    Hours,
}

/// The unit that a unit word names, if any.
pub open spec fn unit_of(u: Seq<u8>) -> Option<DurationUnit> {
    if u =~= seq![109u8, 115u8] || u =~= seq![109u8, 105u8, 108u8, 108u8, 105u8, 115u8] {
        Some(DurationUnit::Millis)
    } else if u =~= seq![115u8] || u =~= seq![115u8, 101u8, 99u8] || u =~= seq![
        115u8,
        101u8,
        99u8,
        111u8,
        110u8,
        100u8,
        115u8,
    ] {
        Some(DurationUnit::Seconds)
    } else if u =~= seq![109u8] || u =~= seq![109u8, 105u8, 110u8] || u =~= seq![
        109u8,
        105u8,
        110u8,
        117u8,
        116u8,
        101u8,
        115u8,
    ] {
        Some(DurationUnit::Minutes)
    } else if u =~= seq![104u8] || u =~= seq![104u8, 114u8] || u =~= seq![104u8, 114u8, 115u8] || u
        =~= seq![104u8, 111u8, 117u8, 114u8] || u =~= seq![104u8, 111u8, 117u8, 114u8, 115u8] {
        Some(DurationUnit::Hours)
    } else {
        None
    }
}

/// A number of units in milliseconds.
pub open spec fn unit_millis(n: int, unit: DurationUnit) -> int {
    match unit {
        DurationUnit::Millis => n,
        DurationUnit::Seconds => n * 1000,
        DurationUnit::Minutes => n * 60000,
        DurationUnit::Hours => n * 3600000,
    }
}

/// Whether converting `n` units overflows the 64-bit multiplication that minutes and hours take.
pub open spec fn unit_overflows(n: int, unit: DurationUnit) -> bool {
    match unit {
        DurationUnit::Minutes => n * 60 > u64::MAX,
        DurationUnit::Hours => n * 3600 > u64::MAX,
        _ => false,
    }
}

/// What parsing a duration comes to.
pub enum DurationParse {
    /// The duration, in milliseconds.
    Parsed(int),
    /// The input was empty.
    Empty,
    /// A number or a unit is malformed.
    Invalid,
    /// The input is one on which the parser stops with a hard error.
    Panics,
}

/// Parse the parts of `s`, adding them to `acc` milliseconds.
pub open spec fn parse_parts(s: Seq<u8>, acc: int) -> DurationParse
    decreases s.len(),
{
    if s.len() == 0 {
        DurationParse::Parsed(acc)
    } else {
        let t = s.skip(count_leading(s, ws_pred()) as int);
        let n = count_leading(t, digit_pred());
        let num = t.take(n as int);
        let rest = t.skip(n as int);
        let w = count_leading(rest, ws_pred());
        let d = count_leading(rest, non_digit_pred());
        let t2 = rest.skip(w as int);
        if d > t2.len() || !is_char_start(t2, d as int) {
            DurationParse::Panics
        } else if n == 0 || digits_value(num) > u64::MAX {
            DurationParse::Invalid
        } else {
            match unit_of(t2.take(d as int)) {
                None => DurationParse::Invalid,
                Some(unit) => {
                    let total = acc + unit_millis(digits_value(num), unit);
                    if unit_overflows(digits_value(num), unit) || total > max_duration_millis() {
                        DurationParse::Panics
                    } else {
                        proof {
                            lemma_count_leading_le(s, ws_pred());
                            lemma_count_leading_le(t, digit_pred());
                            lemma_count_leading_le(rest, ws_pred());
                            assert(t2.skip(d as int).len() < s.len());
                        }
                        parse_parts(t2.skip(d as int), total)
                    }
                },
            }
        }
    }
}

/// What parsing the UTF-8 bytes `s` of a duration comes to.
pub open spec fn parse_duration_spec(s: Seq<u8>) -> DurationParse {
    if s.len() == 0 {
        DurationParse::Empty
    } else {
        parse_parts(s, 0)
    }
}

pub proof fn lemma_count_leading_le(s: Seq<u8>, p: spec_fn(u8) -> bool)
    ensures
        count_leading(s, p) <= s.len(),
    decreases s.len(),
{
    if s.len() > 0 && p(s[0]) {
        lemma_count_leading_le(s.drop_first(), p);
    }
}

proof fn lemma_count_leading_is(s: Seq<u8>, p: spec_fn(u8) -> bool, k: int)
    requires
        0 <= k <= s.len(),
        forall|i: int| 0 <= i < k ==> p(#[trigger] s[i]),
        k == s.len() || !p(s[k]),
    ensures
        count_leading(s, p) == k,
    decreases k,
{
    if k > 0 {
        let t = s.drop_first();
        assert forall|i: int| 0 <= i < k - 1 implies p(#[trigger] t[i]) by {
            assert(t[i] == s[i + 1]);
        }
        if k < s.len() {
            assert(t[k - 1] == s[k]);
        }
        lemma_count_leading_is(t, p, k - 1);
    }
}

/// The leading run of bytes from `start` that satisfy `p` ends at `end`.
proof fn lemma_run(b: Seq<u8>, p: spec_fn(u8) -> bool, start: int, end: int)
    requires
        0 <= start <= end <= b.len(),
        forall|i: int| start <= i < end ==> p(#[trigger] b[i]),
        end == b.len() || !p(b[end]),
    ensures
        count_leading(b.skip(start), p) == end - start,
{
    let s = b.skip(start);
    assert forall|i: int| 0 <= i < end - start implies p(#[trigger] s[i]) by {
        assert(s[i] == b[start + i]);
    }
    if end < b.len() {
        assert(s[end - start] == b[end]);
    }
    lemma_count_leading_is(s, p, end - start);
}

proof fn lemma_digits_step(b: Seq<u8>, i: int, k: int)
    requires
        0 <= i <= k < b.len(),
    ensures
        digits_value(b.subrange(i, k + 1)) == digits_value(b.subrange(i, k)) * 10 + (b[k] - 48),
{
    assert(b.subrange(i, k + 1).drop_last() =~= b.subrange(i, k));
}

proof fn lemma_digits_nonneg(s: Seq<u8>)
    requires
        forall|i: int| 0 <= i < s.len() ==> is_digit(#[trigger] s[i]),
    ensures
        digits_value(s) >= 0,
    decreases s.len(),
{
    if s.len() > 0 {
        lemma_digits_nonneg(s.drop_last());
    }
}

/// Whether the bytes `b[start..end]` are exactly `word`.
fn bytes_are(b: &[u8], start: usize, end: usize, word: &[u8]) -> (r: bool)
    requires
        start <= end <= b@.len(),
    ensures
        r == (b@.subrange(start as int, end as int) =~= word@),
{
    if end - start != word.len() {
        return false;
    }
    let mut k: usize = 0;
    while k < word.len()
        invariant
            end - start == word@.len(),
            start <= end <= b@.len(),
            k <= word@.len(),
            forall|m: int| 0 <= m < k ==> b@[start + m] == #[trigger] word@[m],
        decreases word.len() - k,
    {
        if b[start + k] != word[k] {
            assert(b@.subrange(start as int, end as int)[k as int] != word@[k as int]);
            return false;
        }
        k = k + 1;
    }
    assert(b@.subrange(start as int, end as int) =~= word@) by {
        assert forall|m: int| 0 <= m < word@.len() implies b@.subrange(start as int, end as int)[m]
            == word@[m] by {
            assert(b@[start + m] == word@[m]);
        }
    }
    true
}

/// The unit that the bytes `b[start..end]` name, if any.
fn unit_of_bytes(b: &[u8], start: usize, end: usize) -> (r: Option<DurationUnit>)
    requires
        start <= end <= b@.len(),
    ensures
        r == unit_of(b@.subrange(start as int, end as int)),
{
    let ghost u = b@.subrange(start as int, end as int);
    if bytes_are(b, start, end, &[109u8, 115u8]) || bytes_are(b, start, end, &[109u8, 105u8, 108u8, 108u8, 105u8, 115u8]) {
        Some(DurationUnit::Millis)
    } else if bytes_are(b, start, end, &[115u8]) || bytes_are(b, start, end, &[115u8, 101u8, 99u8]) || bytes_are(
        b,
        start,
        end,
        &[115u8, 101u8, 99u8, 111u8, 110u8, 100u8, 115u8],
    ) {
        Some(DurationUnit::Seconds)
    } else if bytes_are(b, start, end, &[109u8]) || bytes_are(b, start, end, &[109u8, 105u8, 110u8]) || bytes_are(
        b,
        start,
        end,
        &[109u8, 105u8, 110u8, 117u8, 116u8, 101u8, 115u8],
    ) {
        Some(DurationUnit::Minutes)
    } else if bytes_are(b, start, end, &[104u8]) || bytes_are(b, start, end, &[104u8, 114u8]) || bytes_are(
        b,
        start,
        end,
        &[104u8, 114u8, 115u8],
    ) || bytes_are(b, start, end, &[104u8, 111u8, 117u8, 114u8]) || bytes_are(
        b,
        start,
        end,
        &[104u8, 111u8, 117u8, 114u8, 115u8],
    ) {
        Some(DurationUnit::Hours)
    } else {
        None
    }
}


/// What the parser computes, in executable form.
pub enum DurationOutcome {
    Millis(u128),
    Empty,
    Invalid,
    Panics,
}

impl DurationOutcome {
    pub open spec fn agrees(self, p: DurationParse) -> bool {
        match (self, p) {
            (DurationOutcome::Millis(ms), DurationParse::Parsed(x)) => ms == x,
            (DurationOutcome::Empty, DurationParse::Empty) => true,
            (DurationOutcome::Invalid, DurationParse::Invalid) => true,
            (DurationOutcome::Panics, DurationParse::Panics) => true,
            _ => false,
        }
    }
}

fn is_ws_byte(b: u8) -> (r: bool)
    ensures
        r == is_ws(b),
{
    b == 32 || b == 9 || b == 10 || b == 12 || b == 13
}

fn is_digit_byte(b: u8) -> (r: bool)
    ensures
        r == is_digit(b),
{
    48 <= b && b <= 57
}

/// One step of the parser, spelled out over byte positions: `i` ends the leading whitespace, `j`
/// the number, `w` the whitespace after it and `dd` the non-digits after the number.
pub open spec fn parse_step(bs: Seq<u8>, acc: int, i: int, j: int, w: int, dd: int) -> DurationParse {
    let len = bs.len() as int;
    let cut = w + (dd - j);
    if dd - j > len - w || !is_char_start(bs.skip(w), dd - j) {
        DurationParse::Panics
    } else if j == i || digits_value(bs.subrange(i, j)) > u64::MAX {
        DurationParse::Invalid
    } else {
        match unit_of(bs.subrange(w, cut)) {
            None => DurationParse::Invalid,
            Some(unit) => {
                let total = acc + unit_millis(digits_value(bs.subrange(i, j)), unit);
                if unit_overflows(digits_value(bs.subrange(i, j)), unit) || total > max_duration_millis() {
                    DurationParse::Panics
                } else {
                    parse_parts(bs.skip(cut), total)
                }
            },
        }
    }
}

/// The positions of one part of the input, starting at `pos`.
pub open spec fn part_positions(bs: Seq<u8>, pos: int, i: int, j: int, w: int, dd: int) -> bool {
    &&& 0 <= pos <= i <= j <= w <= bs.len()
    &&& j <= dd <= bs.len()
    &&& forall|k: int| pos <= k < i ==> is_ws(#[trigger] bs[k])
    &&& (i == bs.len() || !is_ws(bs[i]))
    &&& forall|k: int| i <= k < j ==> is_digit(#[trigger] bs[k])
    &&& (j == bs.len() || !is_digit(bs[j]))
    &&& forall|k: int| j <= k < w ==> is_ws(#[trigger] bs[k])
    &&& (w == bs.len() || !is_ws(bs[w]))
    &&& forall|k: int| j <= k < dd ==> !is_digit(#[trigger] bs[k])
    &&& (dd == bs.len() || is_digit(bs[dd]))
}

proof fn lemma_parse_unfold(bs: Seq<u8>, acc: int, pos: int, i: int, j: int, w: int, dd: int)
    requires
        pos < bs.len(),
        part_positions(bs, pos, i, j, w, dd),
    ensures
        parse_parts(bs.skip(pos), acc) == parse_step(bs, acc, i, j, w, dd),
{
    let s0 = bs.skip(pos);
    lemma_run(bs, ws_pred(), pos, i);
    assert(s0.skip(i - pos) =~= bs.skip(i));
    lemma_run(bs, digit_pred(), i, j);
    let t = bs.skip(i);
    assert(t.take(j - i) =~= bs.subrange(i, j));
    assert(t.skip(j - i) =~= bs.skip(j));
    lemma_run(bs, ws_pred(), j, w);
    lemma_run(bs, non_digit_pred(), j, dd);
    let t2 = bs.skip(j).skip(w - j);
    assert(t2 =~= bs.skip(w));
    if dd - j <= bs.len() - w {
        assert(t2.take(dd - j) =~= bs.subrange(w, w + (dd - j)));
        assert(t2.skip(dd - j) =~= bs.skip(w + (dd - j)));
    }
}

fn scan_part(b: &[u8], pos: usize) -> (r: (usize, usize, usize, usize))
    requires
        pos < b@.len(),
    ensures
        part_positions(b@, pos as int, r.0 as int, r.1 as int, r.2 as int, r.3 as int),
{
    let len = b.len();
    let mut i = pos;
    while i < len && is_ws_byte(b[i])
        invariant
            len == b@.len(),
            pos <= i <= len,
            forall|k: int| pos <= k < i ==> is_ws(#[trigger] b@[k]),
        decreases len - i,
    {
        i = i + 1;
    }
    let mut j = i;
    while j < len && is_digit_byte(b[j])
        invariant
            len == b@.len(),
            i <= j <= len,
            forall|k: int| i <= k < j ==> is_digit(#[trigger] b@[k]),
        decreases len - j,
    {
        j = j + 1;
    }
    let mut w = j;
    while w < len && is_ws_byte(b[w])
        invariant
            len == b@.len(),
            j <= w <= len,
            forall|k: int| j <= k < w ==> is_ws(#[trigger] b@[k]),
        decreases len - w,
    {
        w = w + 1;
    }
    let mut dd = j;
    while dd < len && !is_digit_byte(b[dd])
        invariant
            len == b@.len(),
            j <= dd <= len,
            forall|k: int| j <= k < dd ==> !is_digit(#[trigger] b@[k]),
        decreases len - dd,
    {
        dd = dd + 1;
    }
    (i, j, w, dd)
}

/// The value of the digits `b[i..j]`, or `None` when it does not fit 64 bits.
fn digits_u64(b: &[u8], i: usize, j: usize) -> (r: Option<u64>)
    requires
        i <= j <= b@.len(),
        forall|m: int| i <= m < j ==> is_digit(#[trigger] b@[m]),
    ensures
        match r {
            Some(v) => v == digits_value(b@.subrange(i as int, j as int)),
            None => digits_value(b@.subrange(i as int, j as int)) > u64::MAX,
        },
{
    let ghost bs = b@;
    let mut val: u128 = 0;
    let mut k = i;
    proof {
        assert(bs.subrange(i as int, i as int) =~= Seq::<u8>::empty());
    }
    while k < j
        invariant
            b@ == bs,
            i <= k <= j <= bs.len(),
            forall|m: int| i <= m < j ==> is_digit(#[trigger] bs[m]),
            val <= 10 * (u64::MAX as int) + 9,
            val <= u64::MAX ==> val == digits_value(bs.subrange(i as int, k as int)),
            val > u64::MAX ==> digits_value(bs.subrange(i as int, k as int)) > u64::MAX,
        decreases j - k,
    {
        proof {
            lemma_digits_step(bs, i as int, k as int);
            assert forall|m: int| 0 <= m < bs.subrange(i as int, k as int).len() implies is_digit(
                #[trigger] bs.subrange(i as int, k as int)[m],
            ) by {
                assert(bs.subrange(i as int, k as int)[m] == bs[i + m]);
            }
            lemma_digits_nonneg(bs.subrange(i as int, k as int));
            assert(is_digit(bs[k as int]));
        }
        if val <= u64::MAX as u128 {
            val = val * 10 + (b[k] - 48) as u128;
        }
        k = k + 1;
    }
    if val > u64::MAX as u128 {
        None
    } else {
        Some(val as u64)
    }
}

/// Run the duration parser over the bytes of `s`.
pub fn parse_duration_outcome(s: &str) -> (r: DurationOutcome)
    ensures
        r.agrees(parse_duration_spec(s.spec_bytes())),
{
    let b = s.as_bytes();
    let len = b.len();
    if len == 0 {
        return DurationOutcome::Empty;
    }
    let ghost bs = b@;
    let mut pos: usize = 0;
    let mut acc: u128 = 0;
    proof {
        assert(bs.skip(0) =~= bs);
    }
    while pos < len
        invariant
            b@ == bs,
            bs == s.spec_bytes(),
            len == bs.len(),
            pos <= len,
            acc <= max_duration_millis(),
            parse_duration_spec(bs) == parse_parts(bs.skip(pos as int), acc as int),
        decreases len - pos,
    {
        let (i, j, w, dd) = scan_part(b, pos);
        proof {
            lemma_parse_unfold(bs, acc as int, pos as int, i as int, j as int, w as int, dd as int);
        }
        if dd - j > len - w {
            return DurationOutcome::Panics;
        }
        let cut = w + (dd - j);
        if cut < len && b[cut] >= 0x80 && b[cut] < 0xC0 {
            assert(!is_char_start(bs.skip(w as int), (dd - j) as int)) by {
                assert(bs.skip(w as int)[(dd - j) as int] == bs[cut as int]);
            }
            return DurationOutcome::Panics;
        }
        proof {
            if cut < len {
                assert(bs.skip(w as int)[(dd - j) as int] == bs[cut as int]);
            }
            assert(is_char_start(bs.skip(w as int), (dd - j) as int));
        }
        if j == i {
            return DurationOutcome::Invalid;
        }
        let val = match digits_u64(b, i, j) {
            None => {
                return DurationOutcome::Invalid;
            },
            Some(v) => v as u128,
        };
        match unit_of_bytes(b, w, cut) {
            None => {
                return DurationOutcome::Invalid;
            },
            Some(unit) => {
                let part: u128 = match unit {
                    DurationUnit::Millis => val,
                    DurationUnit::Seconds => val * 1000,
                    DurationUnit::Minutes => {
                        if val * 60 > u64::MAX as u128 {
                            return DurationOutcome::Panics;
                        }
                        val * 60000
                    },
                    DurationUnit::Hours => {
                        if val * 3600 > u64::MAX as u128 {
                            return DurationOutcome::Panics;
                        }
                        val * 3600000
                    },
                };
                if acc + part > 18446744073709551616000u128 - 1 {
                    return DurationOutcome::Panics;
                }
                acc = acc + part;
                pos = cut;
            },
        }
    }
    proof {
        assert(bs.skip(pos as int).len() == 0);
    }
    DurationOutcome::Millis(acc)
}

/// Parse a duration such as `1h30m` into milliseconds.
///
/// Returns `"no duration provided"` for an empty input and `"invalid duration format"` when a
/// number or a unit is malformed. Must not be called on the inputs that
/// [`duration_parse_panics`] accepts.
pub fn parse_duration(s: &str) -> (r: Result<u128, &'static str>)
    requires
        !(parse_duration_spec(s.spec_bytes()) is Panics),
    ensures
        match parse_duration_spec(s.spec_bytes()) {
            DurationParse::Parsed(ms) => r == Ok::<u128, &'static str>(ms as u128),
            DurationParse::Empty => r is Err && r->Err_0@ == "no duration provided"@,
            DurationParse::Invalid => r is Err && r->Err_0@ == "invalid duration format"@,
            DurationParse::Panics => false,
        },
{
    match parse_duration_outcome(s) {
        DurationOutcome::Millis(ms) => Ok(ms),
        DurationOutcome::Empty => Err("no duration provided"),
        DurationOutcome::Invalid => Err("invalid duration format"),
        DurationOutcome::Panics => Err("invalid duration format"),
    }
}

/// Whether the parser stops with a hard error on `s`: a unit cut past the end of the input or
/// inside a character, a minute or hour count that overflows 64 bits, or a total beyond what a
/// `Duration` holds.
pub fn duration_parse_panics(s: &str) -> (r: bool)
    ensures
        r == (parse_duration_spec(s.spec_bytes()) is Panics),
{
    match parse_duration_outcome(s) {
        DurationOutcome::Panics => true,
        _ => false,
    }
}

/// An ASCII letter.
pub open spec fn is_letter(b: u8) -> bool {
    (65 <= b <= 90) || (97 <= b <= 122)
}

/// Text made of ASCII digits and letters only, as durations such as `1h30m` are written.
pub open spec fn plain_text(s: Seq<u8>) -> bool {
    forall|i: int| 0 <= i < s.len() ==> is_digit(#[trigger] s[i]) || is_letter(s[i])
}

proof fn lemma_leading_props(s: Seq<u8>, p: spec_fn(u8) -> bool)
    ensures
        count_leading(s, p) <= s.len(),
        forall|i: int| 0 <= i < count_leading(s, p) ==> p(#[trigger] s[i]),
        count_leading(s, p) < s.len() ==> !p(s[count_leading(s, p) as int]),
    decreases s.len(),
{
    if s.len() > 0 && p(s[0]) {
        let t = s.drop_first();
        lemma_leading_props(t, p);
        assert forall|i: int| 0 <= i < count_leading(s, p) implies p(#[trigger] s[i]) by {
            if i > 0 {
                assert(s[i] == t[i - 1]);
            }
        }
        if count_leading(s, p) < s.len() {
            assert(s[count_leading(s, p) as int] == t[count_leading(t, p) as int]);
        }
    }
}

/// The leading run of `x + y` is that of `x` when it ends inside `x`.
proof fn lemma_leading_concat(x: Seq<u8>, y: Seq<u8>, p: spec_fn(u8) -> bool)
    requires
        count_leading(x, p) < x.len(),
    ensures
        count_leading(x + y, p) == count_leading(x, p),
{
    lemma_leading_props(x, p);
    let c = count_leading(x, p) as int;
    let s = x + y;
    assert forall|i: int| 0 <= i < c implies p(#[trigger] s[i]) by {
        assert(s[i] == x[i]);
    }
    assert(s[c] == x[c]);
    lemma_count_leading_is(s, p, c);
}

/// The leading run of `x + y` goes on into `y` when it fills `x`.
proof fn lemma_leading_concat_full(x: Seq<u8>, y: Seq<u8>, p: spec_fn(u8) -> bool)
    requires
        count_leading(x, p) == x.len(),
        y.len() > 0,
        !p(y[0]),
    ensures
        count_leading(x + y, p) == x.len(),
{
    lemma_leading_props(x, p);
    let c = x.len() as int;
    let s = x + y;
    assert forall|i: int| 0 <= i < c implies p(#[trigger] s[i]) by {
        assert(s[i] == x[i]);
    }
    assert(s[c] == y[0]);
    lemma_count_leading_is(s, p, c);
}

proof fn lemma_no_leading(s: Seq<u8>, p: spec_fn(u8) -> bool)
    requires
        s.len() == 0 || !p(s[0]),
    ensures
        count_leading(s, p) == 0,
{
}

/// Parsing never lowers the running total.
#[verifier::spinoff_prover]
proof fn lemma_parse_monotone(s: Seq<u8>, acc: int, y: int)
    requires
        parse_parts(s, acc) == DurationParse::Parsed(y),
    ensures
        y >= acc,
    decreases s.len(),
{
    if s.len() > 0 {
        let t = s.skip(count_leading(s, ws_pred()) as int);
        let n = count_leading(t, digit_pred());
        let num = t.take(n as int);
        let rest = t.skip(n as int);
        let w = count_leading(rest, ws_pred());
        let d = count_leading(rest, non_digit_pred());
        let t2 = rest.skip(w as int);
        let unit = unit_of(t2.take(d as int))->0;
        let total = acc + unit_millis(digits_value(num), unit);
        lemma_leading_props(t, digit_pred());
        assert forall|i: int| 0 <= i < num.len() implies is_digit(#[trigger] num[i]) by {
            assert(num[i] == t[i]);
            assert(digit_pred()(t[i]));
        }
        lemma_digits_nonneg(num);
        assert(unit_millis(digits_value(num), unit) >= 0) by (nonlinear_arith)
            requires
                digits_value(num) >= 0,
                unit_millis(digits_value(num), unit) == match unit {
                    DurationUnit::Millis => digits_value(num),
                    DurationUnit::Seconds => digits_value(num) * 1000,
                    DurationUnit::Minutes => digits_value(num) * 60000,
                    DurationUnit::Hours => digits_value(num) * 3600000,
                },
        ;
        lemma_count_leading_le(s, ws_pred());
        lemma_count_leading_le(t, digit_pred());
        lemma_count_leading_le(rest, ws_pred());
        lemma_parse_monotone(t2.skip(d as int), total, y);
    }
}

/// Parsing from another running total ends off by the same amount, as long as the end fits.
#[verifier::spinoff_prover]
proof fn lemma_parse_shift(s: Seq<u8>, c0: int, c: int, y: int)
    requires
        parse_parts(s, c0) == DurationParse::Parsed(y),
        y + (c - c0) <= max_duration_millis(),
    ensures
        parse_parts(s, c) == DurationParse::Parsed(y + (c - c0)),
    decreases s.len(),
{
    if s.len() > 0 {
        let t = s.skip(count_leading(s, ws_pred()) as int);
        let n = count_leading(t, digit_pred());
        let num = t.take(n as int);
        let rest = t.skip(n as int);
        let w = count_leading(rest, ws_pred());
        let d = count_leading(rest, non_digit_pred());
        let t2 = rest.skip(w as int);
        let unit = unit_of(t2.take(d as int))->0;
        let total0 = c0 + unit_millis(digits_value(num), unit);
        let total = c + unit_millis(digits_value(num), unit);
        lemma_count_leading_le(s, ws_pred());
        lemma_count_leading_le(t, digit_pred());
        lemma_count_leading_le(rest, ws_pred());
        lemma_parse_monotone(t2.skip(d as int), total0, y);
        lemma_parse_shift(t2.skip(d as int), total0, total, y);
    }
}

/// The pieces the parser cuts from the first part of `a + b` are those it cuts from `a`, with
/// `b` following what is left of `a`.
proof fn lemma_first_part_concat(a: Seq<u8>, b: Seq<u8>)
    requires
        plain_text(a),
        plain_text(b),
        a.len() > 0,
        b.len() > 0,
        is_digit(b[0]),
        count_leading(a, digit_pred()) < a.len(),
    ensures
        ({
            let s = a + b;
            let ta = a.skip(count_leading(a, ws_pred()) as int);
            let ts = s.skip(count_leading(s, ws_pred()) as int);
            let n = count_leading(ta, digit_pred());
            let rest_a = ta.skip(n as int);
            let rest_s = ts.skip(count_leading(ts, digit_pred()) as int);
            let d = count_leading(rest_a, non_digit_pred());
            let t2a = rest_a.skip(count_leading(rest_a, ws_pred()) as int);
            let t2s = rest_s.skip(count_leading(rest_s, ws_pred()) as int);
            &&& ta == a
            &&& count_leading(ts, digit_pred()) == n
            &&& ts.take(n as int) == ta.take(n as int)
            &&& count_leading(rest_s, non_digit_pred()) == d
            &&& t2a == rest_a
            &&& d <= t2s.len()
            &&& is_char_start(t2s, d as int)
            &&& t2s.take(d as int) == t2a.take(d as int)
            &&& t2s.skip(d as int) == t2a.skip(d as int) + b
            &&& plain_text(t2a.skip(d as int))
        }),
{
    let s = a + b;
    assert(s[0] == a[0]);
    lemma_no_leading(a, ws_pred());
    lemma_no_leading(s, ws_pred());
    assert(a.skip(0) =~= a);
    assert(s.skip(0) =~= s);
    let n = count_leading(a, digit_pred());
    lemma_leading_props(a, digit_pred());
    lemma_leading_concat(a, b, digit_pred());
    assert(s.take(n as int) =~= a.take(n as int));
    let rest_a = a.skip(n as int);
    let rest_s = s.skip(n as int);
    assert(rest_s =~= rest_a + b);
    assert(rest_a[0] == a[n as int]);
    assert(rest_s[0] == rest_a[0]);
    lemma_no_leading(rest_a, ws_pred());
    lemma_no_leading(rest_s, ws_pred());
    assert(rest_a.skip(0) =~= rest_a);
    assert(rest_s.skip(0) =~= rest_s);
    let d = count_leading(rest_a, non_digit_pred());
    lemma_leading_props(rest_a, non_digit_pred());
    if d < rest_a.len() {
        lemma_leading_concat(rest_a, b, non_digit_pred());
        assert(rest_s[d as int] == rest_a[d as int]);
        assert(rest_a[d as int] == a[(n + d) as int]);
    } else {
        lemma_leading_concat_full(rest_a, b, non_digit_pred());
        assert(rest_s[d as int] == b[0]);
    }
    assert(rest_s.take(d as int) =~= rest_a.take(d as int));
    assert(rest_s.skip(d as int) =~= rest_a.skip(d as int) + b);
    let next_a = rest_a.skip(d as int);
    assert forall|i: int| 0 <= i < next_a.len() implies is_digit(#[trigger] next_a[i]) || is_letter(next_a[i]) by {
        assert(next_a[i] == a[(n + d) as int + i]);
    }
}

/// `b` starts with a digit when it parses, having no whitespace to skip.
proof fn lemma_parsed_starts_with_digit(b: Seq<u8>, acc: int)
    requires
        plain_text(b),
        b.len() > 0,
        parse_parts(b, acc) is Parsed,
    ensures
        is_digit(b[0]),
{
    lemma_no_leading(b, ws_pred());
    assert(b.skip(0) =~= b);
    lemma_leading_props(b, digit_pred());
}

/// A part of `a` that parses does not run to the end of `a` in digits: its unit follows.
proof fn lemma_parsed_has_unit(a: Seq<u8>, acc: int)
    requires
        plain_text(a),
        a.len() > 0,
        parse_parts(a, acc) is Parsed,
    ensures
        count_leading(a, digit_pred()) < a.len(),
{
    lemma_no_leading(a, ws_pred());
    assert(a.skip(0) =~= a);
    lemma_count_leading_le(a, digit_pred());
    let n = count_leading(a, digit_pred());
    if n == a.len() {
        let rest = a.skip(n as int);
        assert(rest.len() == 0);
        lemma_no_leading(rest, ws_pred());
        lemma_no_leading(rest, non_digit_pred());
        assert(rest.skip(0).take(0) =~= Seq::<u8>::empty());
        assert(unit_of(Seq::<u8>::empty()) is None);
    }
}

/// Parsing `a + b` from a running total, where `a` ends with a unit and `b` parses on its own.
#[verifier::spinoff_prover]
proof fn lemma_parse_concat(a: Seq<u8>, b: Seq<u8>, acc: int, x: int, y: int)
    requires
        plain_text(a),
        plain_text(b),
        a.len() > 0,
        b.len() > 0,
        parse_parts(a, acc) == DurationParse::Parsed(x),
        parse_parts(b, 0) == DurationParse::Parsed(y),
        x + y <= max_duration_millis(),
    ensures
        parse_parts(a + b, acc) == DurationParse::Parsed(x + y),
    decreases a.len(),
{
    lemma_parsed_starts_with_digit(b, 0);
    lemma_parsed_has_unit(a, acc);
    lemma_first_part_concat(a, b);
    let ta = a.skip(count_leading(a, ws_pred()) as int);
    let n = count_leading(ta, digit_pred());
    let rest_a = ta.skip(n as int);
    let d = count_leading(rest_a, non_digit_pred());
    let t2a = rest_a.skip(count_leading(rest_a, ws_pred()) as int);
    let unit = unit_of(t2a.take(d as int))->0;
    let total = acc + unit_millis(digits_value(ta.take(n as int)), unit);
    let next_a = t2a.skip(d as int);
    lemma_count_leading_le(a, ws_pred());
    lemma_count_leading_le(ta, digit_pred());
    lemma_count_leading_le(rest_a, ws_pred());
    assert(parse_parts(next_a, total) == DurationParse::Parsed(x));
    if next_a.len() == 0 {
        assert(x == total);
        lemma_parse_shift(b, 0, total, y);
        assert(next_a + b =~= b);
    } else {
        lemma_parse_concat(next_a, b, total, x, y);
    }
}

/// Parsing a number written directly before a unit word gives the number in that unit.
proof fn lemma_one_part(num: Seq<u8>, w: Seq<u8>, unit: DurationUnit)
    requires
        num.len() > 0,
        forall|i: int| 0 <= i < num.len() ==> is_digit(#[trigger] num[i]),
        w.len() > 0,
        forall|i: int| 0 <= i < w.len() ==> is_letter(#[trigger] w[i]),
        unit_of(w) == Some(unit),
        digits_value(num) <= u64::MAX,
        !unit_overflows(digits_value(num), unit),
        unit_millis(digits_value(num), unit) <= max_duration_millis(),
    ensures
        parse_duration_spec(num + w) == DurationParse::Parsed(unit_millis(digits_value(num), unit)),
{
    let s = num + w;
    let n = num.len() as int;
    assert(s[0] == num[0]);
    lemma_no_leading(s, ws_pred());
    assert(s.skip(0) =~= s);
    assert forall|i: int| 0 <= i < n implies digit_pred()(#[trigger] num[i]) by {}
    lemma_count_leading_is(num, digit_pred(), n);
    assert(!digit_pred()(w[0]));
    lemma_leading_concat_full(num, w, digit_pred());
    assert(s.take(n) =~= num);
    let rest = s.skip(n);
    assert(rest =~= w);
    assert(!ws_pred()(w[0]));
    lemma_no_leading(w, ws_pred());
    assert(w.skip(0) =~= w);
    assert forall|i: int| 0 <= i < w.len() implies non_digit_pred()(#[trigger] w[i]) by {}
    lemma_count_leading_is(w, non_digit_pred(), w.len() as int);
    assert(w.take(w.len() as int) =~= w);
    let total = unit_millis(digits_value(num), unit);
    let empty = w.skip(w.len() as int);
    assert(empty.len() == 0);
    assert(parse_parts(empty, 0 + total) == DurationParse::Parsed(total));
}

/// Law: a number followed by a unit word is that many units: `h`, `hr`, `hrs`, `hour` and
/// `hours` are hours of 3600000 milliseconds, `m`, `min` and `minutes` minutes of 60000, `s`,
/// `sec` and `seconds` seconds of 1000, and `ms` and `millis` milliseconds; as long as the
/// number fits in 64 bits, and in 64 bits once turned into seconds for minutes and hours.
pub proof fn law_unit_words(num: Seq<u8>)
    requires
        num.len() > 0,
        forall|i: int| 0 <= i < num.len() ==> is_digit(#[trigger] num[i]),
    ensures
        ({
            let v = digits_value(num);
            &&& v * 3600 <= u64::MAX ==> {
                &&& parse_duration_spec(num + seq![104u8]) == DurationParse::Parsed(v * 3600000)
                &&& parse_duration_spec(num + seq![104u8, 114u8]) == DurationParse::Parsed(v * 3600000)
                &&& parse_duration_spec(num + seq![104u8, 114u8, 115u8]) == DurationParse::Parsed(v * 3600000)
                &&& parse_duration_spec(num + seq![104u8, 111u8, 117u8, 114u8]) == DurationParse::Parsed(v * 3600000)
                &&& parse_duration_spec(num + seq![104u8, 111u8, 117u8, 114u8, 115u8]) == DurationParse::Parsed(
                    v * 3600000,
                )
            }
            &&& v * 60 <= u64::MAX ==> {
                &&& parse_duration_spec(num + seq![109u8]) == DurationParse::Parsed(v * 60000)
                &&& parse_duration_spec(num + seq![109u8, 105u8, 110u8]) == DurationParse::Parsed(v * 60000)
                &&& parse_duration_spec(num + seq![109u8, 105u8, 110u8, 117u8, 116u8, 101u8, 115u8])
                    == DurationParse::Parsed(v * 60000)
            }
            &&& v <= u64::MAX ==> {
                &&& parse_duration_spec(num + seq![115u8]) == DurationParse::Parsed(v * 1000)
                &&& parse_duration_spec(num + seq![115u8, 101u8, 99u8]) == DurationParse::Parsed(v * 1000)
                &&& parse_duration_spec(num + seq![115u8, 101u8, 99u8, 111u8, 110u8, 100u8, 115u8])
                    == DurationParse::Parsed(v * 1000)
                &&& parse_duration_spec(num + seq![109u8, 115u8]) == DurationParse::Parsed(v)
                &&& parse_duration_spec(num + seq![109u8, 105u8, 108u8, 108u8, 105u8, 115u8])
                    == DurationParse::Parsed(v)
            }
        }),
{
    let v = digits_value(num);
    lemma_digits_nonneg(num);
    let words = seq![
        seq![104u8],
        seq![104u8, 114u8],
        seq![104u8, 114u8, 115u8],
        seq![104u8, 111u8, 117u8, 114u8],
        seq![104u8, 111u8, 117u8, 114u8, 115u8],
        seq![109u8],
        seq![109u8, 105u8, 110u8],
        seq![109u8, 105u8, 110u8, 117u8, 116u8, 101u8, 115u8],
        seq![115u8],
        seq![115u8, 101u8, 99u8],
        seq![115u8, 101u8, 99u8, 111u8, 110u8, 100u8, 115u8],
        seq![109u8, 115u8],
        seq![109u8, 105u8, 108u8, 108u8, 105u8, 115u8],
    ];
    if v * 3600 <= u64::MAX {
        assert(v * 3600000 <= max_duration_millis());
        assert(words[0].len() == 1 && words[0][0] == 104u8);
        assert(!(words[0] =~= seq![115u8]) && !(words[0] =~= seq![109u8]));
        lemma_one_part(num, words[0], DurationUnit::Hours);
        lemma_one_part(num, words[1], DurationUnit::Hours);
        lemma_one_part(num, words[2], DurationUnit::Hours);
        lemma_one_part(num, words[3], DurationUnit::Hours);
        lemma_one_part(num, words[4], DurationUnit::Hours);
    }
    if v * 60 <= u64::MAX {
        assert(v * 60000 <= max_duration_millis());
        assert(words[5].len() == 1 && words[5][0] == 109u8);
        assert(!(words[5] =~= seq![115u8]));
        lemma_one_part(num, words[5], DurationUnit::Minutes);
        lemma_one_part(num, words[6], DurationUnit::Minutes);
        lemma_one_part(num, words[7], DurationUnit::Minutes);
    }
    if v <= u64::MAX {
        assert(v * 1000 <= max_duration_millis());
        lemma_one_part(num, words[8], DurationUnit::Seconds);
        lemma_one_part(num, words[9], DurationUnit::Seconds);
        lemma_one_part(num, words[10], DurationUnit::Seconds);
        lemma_one_part(num, words[11], DurationUnit::Millis);
        lemma_one_part(num, words[12], DurationUnit::Millis);
    }
}

/// Law: a number followed by a word of letters that is none of the unit words is refused as
/// malformed.
pub proof fn law_unknown_unit_word(num: Seq<u8>, w: Seq<u8>)
    requires
        num.len() > 0,
        forall|i: int| 0 <= i < num.len() ==> is_digit(#[trigger] num[i]),
        digits_value(num) <= u64::MAX,
        w.len() > 0,
        forall|i: int| 0 <= i < w.len() ==> is_letter(#[trigger] w[i]),
        w != seq![104u8],
        w != seq![104u8, 114u8],
        w != seq![104u8, 114u8, 115u8],
        w != seq![104u8, 111u8, 117u8, 114u8],
        w != seq![104u8, 111u8, 117u8, 114u8, 115u8],
        w != seq![109u8],
        w != seq![109u8, 105u8, 110u8],
        w != seq![109u8, 105u8, 110u8, 117u8, 116u8, 101u8, 115u8],
        w != seq![115u8],
        w != seq![115u8, 101u8, 99u8],
        w != seq![115u8, 101u8, 99u8, 111u8, 110u8, 100u8, 115u8],
        w != seq![109u8, 115u8],
        w != seq![109u8, 105u8, 108u8, 108u8, 105u8, 115u8],
    ensures
        parse_duration_spec(num + w) == DurationParse::Invalid,
{
    let s = num + w;
    let n = num.len() as int;
    assert(s[0] == num[0]);
    lemma_no_leading(s, ws_pred());
    assert(s.skip(0) =~= s);
    assert forall|i: int| 0 <= i < n implies digit_pred()(#[trigger] num[i]) by {}
    lemma_count_leading_is(num, digit_pred(), n);
    assert(!digit_pred()(w[0]));
    lemma_leading_concat_full(num, w, digit_pred());
    assert(s.take(n) =~= num);
    let rest = s.skip(n);
    assert(rest =~= w);
    assert(!ws_pred()(w[0]));
    lemma_no_leading(w, ws_pred());
    assert(w.skip(0) =~= w);
    assert forall|i: int| 0 <= i < w.len() implies non_digit_pred()(#[trigger] w[i]) by {}
    lemma_count_leading_is(w, non_digit_pred(), w.len() as int);
    assert(w.take(w.len() as int) =~= w);
    assert(unit_of(w) is None);
}

/// Law: two durations written one after the other, in digits and letters only, parse to the sum
/// of their parts, as `1h` and `30m` make `1h30m`, as long as the sum fits a `Duration`.
pub proof fn law_durations_add_up(a: Seq<u8>, b: Seq<u8>, x: int, y: int)
    requires
        plain_text(a),
        plain_text(b),
        parse_duration_spec(a) == DurationParse::Parsed(x),
        parse_duration_spec(b) == DurationParse::Parsed(y),
        x + y <= max_duration_millis(),
    ensures
        parse_duration_spec(a + b) == DurationParse::Parsed(x + y),
{
    lemma_parse_concat(a, b, 0, x, y);
}

/// Law: a duration written as two durations one after the other, such as `1h` followed by `30m`
/// in `1h30m`, parses to the sum of the two, as long as both are made of ASCII digits and letters
/// and the sum fits in a `Duration`.
pub proof fn law_parse_duration_concat(a: &str, b: &str, ab: &str, x: u128, y: u128)
    requires
        ab.spec_bytes() == a.spec_bytes() + b.spec_bytes(),
        plain_text(a.spec_bytes()),
        plain_text(b.spec_bytes()),
        parse_duration_spec(a.spec_bytes()) == DurationParse::Parsed(x as int),
        parse_duration_spec(b.spec_bytes()) == DurationParse::Parsed(y as int),
        x + y <= max_duration_millis(),
    ensures
        parse_duration_spec(ab.spec_bytes()) == DurationParse::Parsed(x + y),
{
    law_durations_add_up(a.spec_bytes(), b.spec_bytes(), x as int, y as int);
}

} // verus!
