//! Time expressions: `now`, `now-<N><unit>`, RFC-3339 timestamps, and bare
//! durations such as `15m`.
//!
//! The logs API takes `now-<N><unit>` verbatim, so [`normalize`] passes it
//! through; the metrics API wants epoch numbers, which [`to_epoch_secs_at`]
//! computes against a given current time.

use vstd::prelude::*;
use crate::text::{
    all_digits, is_digit, chars_eq_str, chars_of, lemma_trim_fixed, parse_i64, parse_i64_chars, push_str, slice_chars,
    starts_with, starts_with_chars, string_from_chars, trim, trim_str,
};
use time::format_description::well_known::Rfc3339;
use time::{OffsetDateTime, UtcOffset};

verus! {

// ---- Errors -----------------------------------------------------------------

/// Why a time expression or a duration was refused.
#[derive(Debug, PartialEq, Eq)]
pub enum TimeError {
    /// The time value was empty (after trimming).
    Empty,
    /// Neither `now`, `now-<N><unit>` nor RFC-3339; holds the trimmed text.
    BadTime(String),
    /// An RFC-3339 timestamp parsed but could not be written back.
    Unformattable,
    /// `now-…` whose number does not parse; holds the trimmed text.
    BadRelative(String),
    /// `now-<N>…` with an unknown unit; holds the trimmed text.
    BadRelativeUnit(String),
    /// The duration was empty (after trimming).
    EmptyDuration,
    /// A duration whose number does not parse; holds the trimmed text.
    BadDuration(String),
    /// A duration with an unknown unit; holds the trimmed text.
    BadDurationUnit(String),
}

/// The mathematical counterpart of [`TimeError`].
pub enum TimeFault {
    Empty,
    BadTime(Seq<char>),
    Unformattable,
    BadRelative(Seq<char>),
    BadRelativeUnit(Seq<char>),
    EmptyDuration,
    BadDuration(Seq<char>),
    BadDurationUnit(Seq<char>),
}

impl View for TimeError {
    type V = TimeFault;

    open spec fn view(&self) -> TimeFault {
        match self {
            TimeError::Empty => TimeFault::Empty,
            TimeError::BadTime(s) => TimeFault::BadTime(s@),
            TimeError::Unformattable => TimeFault::Unformattable,
            TimeError::BadRelative(s) => TimeFault::BadRelative(s@),
            TimeError::BadRelativeUnit(s) => TimeFault::BadRelativeUnit(s@),
            TimeError::EmptyDuration => TimeFault::EmptyDuration,
            TimeError::BadDuration(s) => TimeFault::BadDuration(s@),
            TimeError::BadDurationUnit(s) => TimeFault::BadDurationUnit(s@),
        }
    }
}

/// The message shown for a refused time expression.
pub open spec fn fault_message(f: TimeFault) -> Seq<char> {
    match f {
        TimeFault::Empty => "time value cannot be empty"@,
        TimeFault::BadTime(t) => "expected 'now', 'now-<N><unit>', or RFC-3339 timestamp; got '"@
            + t + "'"@,
        TimeFault::Unformattable => "timestamp could not be formatted as RFC-3339"@,
        TimeFault::BadRelative(t) => "invalid relative time '"@ + t + "'"@,
        TimeFault::BadRelativeUnit(t) => "invalid relative time unit in '"@ + t
            + "' (expected s|m|h|d|w)"@,
        TimeFault::EmptyDuration => "duration cannot be empty"@,
        TimeFault::BadDuration(t) => "invalid duration '"@ + t + "'"@,
        TimeFault::BadDurationUnit(t) => "invalid duration unit in '"@ + t
            + "' (expected s|m|h|d|w)"@,
    }
}

impl TimeError {
    /// The human-readable message for this error.
    pub fn message(&self) -> (r: String)
        ensures
            r@ == fault_message(self@),
    {
        let mut v: Vec<char> = Vec::new();
        match self {
            TimeError::Empty => push_str(&mut v, "time value cannot be empty"),
            TimeError::BadTime(t) => {
                push_str(&mut v, "expected 'now', 'now-<N><unit>', or RFC-3339 timestamp; got '");
                push_str(&mut v, t.as_str());
                push_str(&mut v, "'");
            },
            TimeError::Unformattable => push_str(
                &mut v,
                "timestamp could not be formatted as RFC-3339",
            ),
            TimeError::BadRelative(t) => {
                push_str(&mut v, "invalid relative time '");
                push_str(&mut v, t.as_str());
                push_str(&mut v, "'");
            },
            TimeError::BadRelativeUnit(t) => {
                push_str(&mut v, "invalid relative time unit in '");
                push_str(&mut v, t.as_str());
                push_str(&mut v, "' (expected s|m|h|d|w)");
            },
            TimeError::EmptyDuration => push_str(&mut v, "duration cannot be empty"),
            TimeError::BadDuration(t) => {
                push_str(&mut v, "invalid duration '");
                push_str(&mut v, t.as_str());
                push_str(&mut v, "'");
            },
            TimeError::BadDurationUnit(t) => {
                push_str(&mut v, "invalid duration unit in '");
                push_str(&mut v, t.as_str());
                push_str(&mut v, "' (expected s|m|h|d|w)");
            },
        }
        proof {
            assert(v@ =~= fault_message(self@));
        }
        string_from_chars(v.as_slice())
    }
}

/// The view of a result whose error is a [`TimeError`].
pub open spec fn outcome<T: View>(r: Result<T, TimeError>) -> Result<T::V, TimeFault> {
    match r {
        Ok(v) => Ok(v@),
        Err(e) => Err(e@),
    }
}

/// The view of an integer result whose error is a [`TimeError`].
pub open spec fn int_outcome(r: Result<i64, TimeError>) -> Result<int, TimeFault> {
    match r {
        Ok(v) => Ok(v as int),
        Err(e) => Err(e@),
    }
}

// ---- The grammar ------------------------------------------------------------

/// The word `now`.
pub open spec fn now_word() -> Seq<char> {
    seq!['n', 'o', 'w']
}

/// The prefix `now-` of a relative time.
pub open spec fn now_prefix() -> Seq<char> {
    seq!['n', 'o', 'w', '-']
}

/// Seconds per unit letter: `s`, `m`, `h`, `d`, `w`.
pub open spec fn unit_secs(u: char) -> Option<int> {
    if u == 's' {
        Some(1)
    } else if u == 'm' {
        Some(60)
    } else if u == 'h' {
        Some(3600)
    } else if u == 'd' {
        Some(86400)
    } else if u == 'w' {
        Some(604800)
    } else {
        None
    }
}

fn unit_seconds(u: char) -> (r: Option<i64>)
    ensures
        r matches Some(k) ==> unit_secs(u) == Some(k as int) && 1 <= k <= 604800,
        r is None ==> unit_secs(u) is None,
{
    if u == 's' {
        Some(1)
    } else if u == 'm' {
        Some(60)
    } else if u == 'h' {
        Some(3600)
    } else if u == 'd' {
        Some(86400)
    } else if u == 'w' {
        Some(604800)
    } else {
        None
    }
}

/// `s` splits cleanly before its last byte: it is empty or its last
/// character is ASCII. (Otherwise splitting the text one byte before its end
/// falls inside a character, which panics.)
pub open spec fn splits_cleanly(s: Seq<char>) -> bool {
    s.len() == 0 || (s.last() as u32) < 128
}

/// `now-<digits><unit>`, which Datadog accepts verbatim.
pub open spec fn is_relative_spec(s: Seq<char>) -> bool {
    &&& starts_with(s, now_prefix())
    &&& s.len() > 5
    &&& unit_secs(s.last()) is Some
    &&& all_digits(s.subrange(4, s.len() - 1))
}

/// `s` is a relative time that the no-panic rule admits.
pub open spec fn relative_admissible(s: Seq<char>) -> bool {
    starts_with(s, now_prefix()) && s.len() > 4 ==> splits_cleanly(s)
}

proof fn lemma_now_literals()
    ensures
        "now"@ == now_word(),
        "now-"@ == now_prefix(),
{
    reveal_strlit("now");
    reveal_strlit("now-");
    assert("now"@ =~= now_word());
    assert("now-"@ =~= now_prefix());
}

/// Whether `s` is `now-<digits><unit>` with unit `s|m|h|d|w`.
pub fn is_relative(text: &str) -> (b: bool)
    requires
        relative_admissible(text@),
    ensures
        b == is_relative_spec(text@),
{
    proof {
        lemma_now_literals();
    }
    let chars = chars_of(text);
    let s = chars.as_slice();
    let p = chars_of("now-");
    if !starts_with_chars(s, p.as_slice()) {
        return false;
    }
    let n = s.len();
    if n <= 4 {
        return false;
    }
    if n == 5 {
        return false;
    }
    if unit_seconds(s[n - 1]).is_none() {
        return false;
    }
    let mut i: usize = 4;
    while i < n - 1
        invariant
            4 <= i <= n - 1,
            n == s@.len(),
            s@ == text@,
            all_digits(s@.subrange(4, i as int)),
        decreases n - 1 - i,
    {
        if !('0' <= s[i] && s[i] <= '9') {
            assert(s@.subrange(4, n - 1)[i - 4] == s@[i as int]);
            return false;
        }
        i = i + 1;
        assert(forall|k: int| 0 <= k < i - 4 ==> #[trigger] s@.subrange(4, i as int)[k] == s@[4 + k]);
    }
    true
}

/// Whether a time expression may be handed to [`normalize`]: a relative
/// time must end in an ASCII character.
pub fn time_input_admissible(input: &str) -> (b: bool)
    ensures
        b == relative_admissible(trim(input@)),
{
    proof {
        lemma_now_literals();
    }
    let s = trim_str(input);
    let p = chars_of("now-");
    if starts_with_chars(s.as_slice(), p.as_slice()) && s.len() > 4 {
        (s[s.len() - 1] as u32) < 128
    } else {
        true
    }
}

// ---- Outside time functions ---------------------------------------------------

/// What `OffsetDateTime::parse(s, &Rfc3339)`, then `checked_to_offset` to
/// UTC, then `format(&Rfc3339)` gives: `None` when `s` is not RFC-3339,
/// `Some(None)` when the instant cannot be written in UTC, `Some(Some(t))`
/// with the UTC text `t` otherwise.
pub uninterp spec fn rfc3339_reformat(s: Seq<char>) -> Option<Option<Seq<char>>>;

/// The Unix time in seconds of an RFC-3339 timestamp, `None` when `s` does
/// not parse (`OffsetDateTime::parse(s, &Rfc3339)` then `unix_timestamp`).
pub uninterp spec fn rfc3339_unix(s: Seq<char>) -> Option<int>;

/// The RFC-3339 text of a Unix time in seconds, `None` when the time is out
/// of the representable range or does not format
/// (`OffsetDateTime::from_unix_timestamp` then `format(&Rfc3339)`).
pub uninterp spec fn unix_rfc3339(secs: int) -> Option<Seq<char>>;

/// Parses an RFC-3339 timestamp with the `time` crate and writes the same
/// instant back in RFC-3339 at offset zero. The result is a function of the
/// text alone; a text written at offset zero ends in `Z` (the `time` crate's
/// RFC-3339 formatter writes `Z` for a UTC offset, and begins with the four
/// digits of the year); such a text parses back to the same instant, so
/// reformatting it gives it back unchanged.
#[verifier::external_body]
fn reformat_rfc3339(s: &str) -> (r: Option<Option<String>>)
    ensures
        r is None <==> rfc3339_reformat(s@) is None,
        r matches Some(None) ==> rfc3339_reformat(s@) == Some(Option::<Seq<char>>::None),
        r matches Some(Some(t)) ==> rfc3339_reformat(s@) == Some(Some(t@)),
        r matches Some(Some(t)) ==> t@.len() > 0 && t@.last() == 'Z' && is_digit(t@[0]),
        r matches Some(Some(t)) ==> rfc3339_reformat(t@) == Some(Some(t@)),
{
    match OffsetDateTime::parse(s, &Rfc3339) {
        Ok(t) => match t.checked_to_offset(UtcOffset::UTC) {
            Some(u) => Some(u.format(&Rfc3339).ok()),
            None => Some(None),
        },
        Err(_) => None,
    }
}

/// Parses an RFC-3339 timestamp with the `time` crate and returns its Unix
/// time in seconds. The result is a function of the text alone.
#[verifier::external_body]
fn rfc3339_to_unix(s: &str) -> (r: Option<i64>)
    ensures
        r matches Some(t) ==> rfc3339_unix(s@) == Some(t as int),
        r is None ==> rfc3339_unix(s@) is None,
{
    OffsetDateTime::parse(s, &Rfc3339).ok().map(|t| t.unix_timestamp())
}

/// Writes a Unix time in seconds as RFC-3339 (UTC) with the `time` crate.
/// The result is a function of the number alone.
#[verifier::external_body]
pub(crate) fn unix_to_rfc3339(secs: i64) -> (r: Option<String>)
    ensures
        r matches Some(t) ==> unix_rfc3339(secs as int) == Some(t@),
        r is None ==> unix_rfc3339(secs as int) is None,
{
    match OffsetDateTime::from_unix_timestamp(secs) {
        Ok(t) => t.format(&Rfc3339).ok(),
        Err(_) => None,
    }
}

/// The Unix times an `OffsetDateTime` can hold: its years stay within
/// ±999,999 even with the `time` crate's `large-dates` feature, which is
/// inside ±32·10¹² seconds.
pub open spec fn clock_range(t: int) -> bool {
    -32_000_000_000_000 <= t <= 32_000_000_000_000
}

/// The current Unix time in seconds (`OffsetDateTime::now_utc`). Nothing is
/// promised of the value but that it is a time the `time` crate can hold: it
/// depends on the clock.
#[verifier::external_body]
pub(crate) fn now_unix_secs() -> (r: i64)
    ensures
        clock_range(r as int),
{
    OffsetDateTime::now_utc().unix_timestamp()
}

/// The current time as RFC-3339 text (`OffsetDateTime::now_utc` then
/// `format`). Nothing is promised of the value: it depends on the clock;
/// `None` when formatting fails.
#[verifier::external_body]
pub(crate) fn now_rfc3339() -> (r: Option<String>) {
    OffsetDateTime::now_utc().format(&Rfc3339).ok()
}

// ---- normalize ----------------------------------------------------------------

/// What [`normalize`] gives for an input.
pub open spec fn normalize_spec(input: Seq<char>) -> Result<Seq<char>, TimeFault> {
    let s = trim(input);
    if s.len() == 0 {
        Err(TimeFault::Empty)
    } else if s == now_word() || is_relative_spec(s) {
        Ok(s)
    } else {
        match rfc3339_reformat(s) {
            None => Err(TimeFault::BadTime(s)),
            Some(None) => Err(TimeFault::Unformattable),
            Some(Some(t)) => Ok(t),
        }
    }
}

/// Normalizes a time expression for the logs API: `now` and
/// `now-<N><unit>` pass through (trimmed); RFC-3339 timestamps are
/// validated and written back as the same instant in UTC.
pub fn normalize(input: &str) -> (r: Result<String, TimeError>)
    requires
        relative_admissible(trim(input@)),
    ensures
        outcome(r) == normalize_spec(input@),
        r matches Ok(t) ==> (trim(input@) != now_word() && !is_relative_spec(trim(input@)) ==> (
        t@.len() > 0 && t@.last() == 'Z')),
        r matches Ok(t) ==> normalize_spec(t@) == Ok::<Seq<char>, TimeFault>(t@),
{
    proof {
        lemma_now_literals();
        lemma_trim_fixed(input@);
    }
    let s = trim_str(input);
    if s.len() == 0 {
        return Err(TimeError::Empty);
    }
    let text = string_from_chars(s.as_slice());
    if chars_eq_str(s.as_slice(), "now") || is_relative(text.as_str()) {
        return Ok(text);
    }
    match reformat_rfc3339(text.as_str()) {
        None => Err(TimeError::BadTime(text)),
        Some(None) => Err(TimeError::Unformattable),
        Some(Some(t)) => {
            proof {
                lemma_trim_fixed(t@);
                assert(trim(t@) == t@);
                assert(t@ != now_word());
                assert(!starts_with(t@, now_prefix())) by {
                    if starts_with(t@, now_prefix()) {
                        assert(t@.subrange(0, 4)[0] == t@[0]);
                    }
                }
            }
            Ok(t)
        },
    }
}

// ---- to_epoch_secs --------------------------------------------------------------

/// What [`to_epoch_secs_at`] gives for an input at the current time `now`
/// (seconds).
pub open spec fn epoch_spec(input: Seq<char>, now: int) -> Result<int, TimeFault> {
    let s = trim(input);
    if s.len() == 0 {
        Err(TimeFault::Empty)
    } else if s == now_word() {
        Ok(now)
    } else if starts_with(s, now_prefix()) {
        let rest = s.skip(4);
        if rest.len() == 0 {
            Err(TimeFault::BadRelative(s))
        } else {
            match relative_count(rest.drop_last()) {
                None => Err(TimeFault::BadRelative(s)),
                Some(n) => match unit_secs(rest.last()) {
                    Some(k) => Ok(now - n * k),
                    None => Err(TimeFault::BadRelativeUnit(s)),
                },
            }
        }
    } else {
        match rfc3339_unix(s) {
            Some(t) => Ok(t),
            None => Err(TimeFault::BadTime(s)),
        }
    }
}

/// The count `N` of `now-<N><unit>`: ASCII digits only (no sign), within
/// `i64`.
pub open spec fn relative_count(c: Seq<char>) -> Option<int> {
    if all_digits(c) {
        parse_i64(c)
    } else {
        None
    }
}

fn count_of(c: &[char]) -> (r: Option<i64>)
    ensures
        r matches Some(v) ==> relative_count(c@) == Some(v as int),
        r is None ==> relative_count(c@) is None,
{
    let mut i: usize = 0;
    while i < c.len()
        invariant
            i <= c@.len(),
            forall|k: int| 0 <= k < i ==> is_digit(#[trigger] c@[k]),
        decreases c@.len() - i,
    {
        if !('0' <= c[i] && c[i] <= '9') {
            return None;
        }
        i = i + 1;
    }
    parse_i64_chars(c)
}

/// The inputs on which [`to_epoch_secs_at`] runs without panicking: the
/// `split_at` is on a character boundary and the arithmetic fits an `i64`.
pub open spec fn epoch_admissible(input: Seq<char>, now: int) -> bool {
    &&& relative_admissible(trim(input))
    &&& (starts_with(trim(input), now_prefix()) && trim(input).len() > 4 ==> match relative_count(
        trim(input).skip(4).drop_last(),
    ) {
        Some(n) => match unit_secs(trim(input).last()) {
            Some(k) => i64::MIN <= n * k <= i64::MAX && i64::MIN <= now - n * k <= i64::MAX,
            None => true,
        },
        None => true,
    })
}

/// Whether [`to_epoch_secs_at`] may be called on `input` at `now`.
pub fn epoch_input_admissible(input: &str, now: i64) -> (b: bool)
    ensures
        b == epoch_admissible(input@, now as int),
{
    proof {
        lemma_now_literals();
    }
    let s = trim_str(input);
    let n = s.len();
    let p = chars_of("now-");
    if !starts_with_chars(s.as_slice(), p.as_slice()) || n <= 4 {
        return true;
    }
    if s[n - 1] as u32 >= 128 {
        return false;
    }
    let num = slice_chars(s.as_slice(), 4, n - 1);
    assert(num@ =~= s@.skip(4).drop_last());
    match count_of(num.as_slice()) {
        None => true,
        Some(v) => match unit_seconds(s[n - 1]) {
            None => true,
            Some(k) => {
                assert(-604800 * 9223372036854775808 <= (v as int) * (k as int) <= 604800
                    * 9223372036854775807) by (nonlinear_arith)
                    requires
                        1 <= k <= 604800,
                        i64::MIN <= v <= i64::MAX,
                ;
                let prod = v as i128 * k as i128;
                if prod < i64::MIN as i128 || prod > i64::MAX as i128 {
                    false
                } else {
                    let diff = now as i128 - prod;
                    !(diff < i64::MIN as i128 || diff > i64::MAX as i128)
                }
            },
        },
    }
}

/// Resolves a time expression to Unix seconds, given the current time
/// `now`: `now` is `now`, `now-<N><unit>` is `now - N * unit`, and RFC-3339
/// timestamps are converted.
pub fn to_epoch_secs_at(input: &str, now: i64) -> (r: Result<i64, TimeError>)
    requires
        epoch_admissible(input@, now as int),
    ensures
        int_outcome(r) == epoch_spec(input@, now as int),
{
    proof {
        lemma_now_literals();
    }
    let s = trim_str(input);
    let n = s.len();
    if n == 0 {
        return Err(TimeError::Empty);
    }
    if chars_eq_str(s.as_slice(), "now") {
        return Ok(now);
    }
    let p = chars_of("now-");
    if starts_with_chars(s.as_slice(), p.as_slice()) {
        if n == 4 {
            assert(s@.skip(4).len() == 0);
            return Err(TimeError::BadRelative(string_from_chars(s.as_slice())));
        }
        let num = slice_chars(s.as_slice(), 4, n - 1);
        assert(num@ =~= s@.skip(4).drop_last());
        assert(s@.skip(4).last() == s@.last());
        match count_of(num.as_slice()) {
            None => Err(TimeError::BadRelative(string_from_chars(s.as_slice()))),
            Some(v) => match unit_seconds(s[n - 1]) {
                None => Err(TimeError::BadRelativeUnit(string_from_chars(s.as_slice()))),
                Some(k) => Ok(now - v * k),
            },
        }
    } else {
        let text = string_from_chars(s.as_slice());
        match rfc3339_to_unix(text.as_str()) {
            Some(t) => Ok(t),
            None => Err(TimeError::BadTime(text)),
        }
    }
}

/// Resolves a time expression to Unix seconds against the current clock.
/// Nothing is promised of the clock; the result is [`to_epoch_secs_at`] at
/// the time read, or `None` when that time would make the input
/// inadmissible.
pub fn to_epoch_secs(input: &str) -> (r: Option<Result<i64, TimeError>>)
    ensures
        exists|now: int|
            {
                &&& clock_range(now)
                &&& #[trigger] epoch_admissible(input@, now) == (r is Some)
                &&& (r matches Some(x) ==> epoch_spec(input@, now) == int_outcome(x))
            },
{
    let now = now_unix_secs();
    if epoch_input_admissible(input, now) {
        let x = to_epoch_secs_at(input, now);
        assert(epoch_spec(input@, now as int) == int_outcome(x));
        assert(epoch_admissible(input@, now as int) == (Some(x) is Some));
        Some(x)
    } else {
        let r: Option<Result<i64, TimeError>> = None;
        assert(epoch_admissible(input@, now as int) == (r is Some));
        r
    }
}

// ---- durations ------------------------------------------------------------------

/// What [`duration_secs`] gives: `<N><unit>` with `N` an `i64` and unit
/// `s|m|h|d|w`, in seconds.
pub open spec fn duration_spec(input: Seq<char>) -> Result<int, TimeFault> {
    let s = trim(input);
    if s.len() == 0 {
        Err(TimeFault::EmptyDuration)
    } else {
        match parse_i64(s.drop_last()) {
            None => Err(TimeFault::BadDuration(s)),
            Some(n) => match unit_secs(s.last()) {
                Some(k) => Ok(n * k),
                None => Err(TimeFault::BadDurationUnit(s)),
            },
        }
    }
}

/// The inputs on which [`duration_secs`] runs without panicking.
pub open spec fn duration_admissible(input: Seq<char>) -> bool {
    &&& splits_cleanly(trim(input))
    &&& (duration_spec(input) matches Ok(v) ==> i64::MIN <= v <= i64::MAX)
}

/// Parses a bare duration like `15m`, `1h`, `1d`, `1w` into seconds.
pub fn duration_secs(input: &str) -> (r: Result<i64, TimeError>)
    requires
        duration_admissible(input@),
    ensures
        int_outcome(r) == duration_spec(input@),
{
    let s = trim_str(input);
    let n = s.len();
    if n == 0 {
        return Err(TimeError::EmptyDuration);
    }
    let num = slice_chars(s.as_slice(), 0, n - 1);
    assert(num@ =~= s@.drop_last());
    match parse_i64_chars(num.as_slice()) {
        None => Err(TimeError::BadDuration(string_from_chars(s.as_slice()))),
        Some(v) => match unit_seconds(s[n - 1]) {
            None => Err(TimeError::BadDurationUnit(string_from_chars(s.as_slice()))),
            Some(k) => Ok(v * k),
        },
    }
}

/// Whether [`duration_secs`] may be called on `input`.
pub fn duration_input_admissible(input: &str) -> (b: bool)
    ensures
        b == duration_admissible(input@),
{
    let s = trim_str(input);
    let n = s.len();
    if n == 0 {
        return true;
    }
    if s[n - 1] as u32 >= 128 {
        return false;
    }
    let num = slice_chars(s.as_slice(), 0, n - 1);
    assert(num@ =~= s@.drop_last());
    match parse_i64_chars(num.as_slice()) {
        None => true,
        Some(v) => match unit_seconds(s[n - 1]) {
            None => true,
            Some(k) => {
                assert(-604800 * 9223372036854775808 <= (v as int) * (k as int) <= 604800
                    * 9223372036854775807) by (nonlinear_arith)
                    requires
                        1 <= k <= 604800,
                        i64::MIN <= v <= i64::MAX,
                ;
                let prod = v as i128 * k as i128;
                !(prod < i64::MIN as i128 || prod > i64::MAX as i128)
            },
        },
    }
}

} // verus!
