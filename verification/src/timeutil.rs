//! Time utilities: instants as milliseconds after the Unix epoch, one
//! canonical RFC 3339 textual form, and the process clock.

use vstd::prelude::*;

verus! {

/// Last representable instant: the final millisecond of year 9999, so a
/// formatted timestamp always carries a four-digit year.
pub const MAX_TIMESTAMP_MS: i64 = 253_402_300_799_999;

/// What `chrono`'s RFC 3339 formatter writes for the UTC instant `ms`
/// milliseconds after the Unix epoch.
pub uninterp spec fn rfc3339_format(ms: int) -> Seq<char>;

/// What `chrono`'s RFC 3339 parser reads a text as: an instant in
/// milliseconds after the Unix epoch, or nothing when the text is not a
/// well-formed RFC 3339 date-and-time.
pub uninterp spec fn rfc3339_parse(s: Seq<char>) -> Option<int>;

/// Lexicographic (code-point-wise) order on texts; on ASCII texts this is
/// byte-wise order.
pub open spec fn lex_leq(a: Seq<char>, b: Seq<char>) -> bool
    decreases a.len(),
{
    if a.len() == 0 {
        true
    } else if b.len() == 0 {
        false
    } else if a[0] != b[0] {
        (a[0] as u32) < (b[0] as u32)
    } else {
        lex_leq(a.drop_first(), b.drop_first())
    }
}

/// Relies on `chrono::DateTime::<Utc>::to_rfc3339` (reached over
/// `from_timestamp_millis`, which accepts every instant admitted here):
/// the text is a pure function of the instant, ASCII, at most 35
/// characters for four-digit years, and `parse_from_rfc3339` reads it
/// back to the same instant. The form is sortable: every field is
/// fixed-width, most significant first, the offset is always `+00:00`,
/// and the millisecond fraction is printed exactly when nonzero (`+`
/// orders below `.`, and both below the digits), so instants in range
/// order as their texts do.
#[verifier::external_body]
pub fn format_ms(ms: i64) -> (text: String)
    requires
        0 <= ms <= MAX_TIMESTAMP_MS,
    ensures
        text@ == rfc3339_format(ms as int),
        rfc3339_parse(text@) == Some(ms as int),
        vstd::utf8::is_ascii_chars(text@),
        text@.len() <= 35,
        forall|m: int| 0 <= m <= ms ==> lex_leq(#[trigger] rfc3339_format(m), text@),
{
    let moment = chrono::DateTime::<chrono::Utc>::from_timestamp_millis(ms).expect(
        "instant is within the representable range",
    );
    moment.to_rfc3339()
}

/// Relies on `chrono::DateTime::parse_from_rfc3339` (the instant then read
/// with `timestamp_millis`): acceptance and value are pure functions of
/// the text.
#[verifier::external_body]
pub fn parse_ms(text: &str) -> (res: Option<i64>)
    ensures
        (match res {
            Some(ms) => rfc3339_parse(text@) == Some(ms as int),
            None => rfc3339_parse(text@) is None,
        }),
{
    match chrono::DateTime::parse_from_rfc3339(text) {
        Ok(moment) => Some(moment.timestamp_millis()),
        Err(_) => None,
    }
}

/// Relies on `chrono::Utc::now`: the process clock, read as milliseconds
/// after the Unix epoch. Nothing is assumed of the value. `Utc::now`
/// itself panics when the host clock reads before the Unix epoch — an
/// environment fault, not an input.
#[verifier::external_body]
pub fn now_ms() -> i64 {
    chrono::Utc::now().timestamp_millis()
}

/// The current instant pulled into the representable range, leaving room
/// for another `duration_ms` before the upper bound.
pub fn clamped_now_ms(duration_ms: i64) -> (now: i64)
    requires
        0 <= duration_ms <= MAX_TIMESTAMP_MS,
    ensures
        0 <= now,
        now + duration_ms <= MAX_TIMESTAMP_MS,
{
    let raw = now_ms();
    if raw < 0 {
        0
    } else if raw > MAX_TIMESTAMP_MS - duration_ms {
        MAX_TIMESTAMP_MS - duration_ms
    } else {
        raw
    }
}

/// The canonical text of the instant `duration_ms` after the current
/// time, the sum pulled into the representable range. Whatever the clock
/// returned, the deadline lies at least `duration_ms` after the epoch.
pub fn now_plus_ms(duration_ms: i64) -> (text: String)
    requires
        0 <= duration_ms <= MAX_TIMESTAMP_MS,
    ensures
        exists|t: int|
            duration_ms <= t <= MAX_TIMESTAMP_MS && text@ == rfc3339_format(t) && rfc3339_parse(
                text@,
            ) == Some(t),
{
    let now = clamped_now_ms(duration_ms);
    format_ms(now + duration_ms)
}

} // verus!
