//! Timestamps: epoch milliseconds to RFC 3339 text.

use vstd::prelude::*;

verus! {

/// The RFC 3339 text of the instant `secs` seconds and `nanos` nanoseconds
/// after the Unix epoch in UTC, as `chrono` writes it; `None` where `chrono`
/// has no such instant.
pub uninterp spec fn rfc3339_text(secs: i64, nanos: u32) -> Option<Seq<char>>;

/// `chrono::DateTime::<Utc>::from_timestamp`, and `DateTime::to_rfc3339` on
/// what it returns. Both depend on their arguments alone: the instant is in
/// UTC, and the text is formatted without a locale. The result is named
/// `rfc3339_text`.
#[verifier::external_body]
pub(crate) fn format_rfc3339(secs: i64, nanos: u32) -> (r: Option<String>)
    ensures
        match r {
            Some(s) => rfc3339_text(secs, nanos) == Some(s@),
            None => rfc3339_text(secs, nanos) is None,
        },
{
    chrono::DateTime::from_timestamp(secs, nanos).map(|instant| instant.to_rfc3339())
}

/// The whole seconds of a count of milliseconds, rounded down: a count
/// below zero belongs to the second that began before it.
pub open spec fn floor_secs(millis: i64) -> int {
    millis as int / 1000
}

/// The nanoseconds by which a count of milliseconds is past its whole
/// second; never below zero.
pub open spec fn nanos_past(millis: i64) -> int {
    (millis as int % 1000) * 1_000_000
}

/// The text for a signed count of milliseconds since the epoch, before it as
/// well as after it; empty only where `chrono` has no such instant.
pub open spec fn millis_text(millis: i64) -> Seq<char> {
    match rfc3339_text(floor_secs(millis) as i64, nanos_past(millis) as u32) {
        Some(s) => s,
        None => Seq::empty(),
    }
}

/// Formats a signed count of milliseconds since the epoch as RFC 3339, or as
/// the empty string where it has no such form.
pub fn millis_to_rfc3339(millis: i64) -> (r: String)
    ensures
        r@ == millis_text(millis),
{
    let whole: i64 = millis / 1000;
    let rest: i64 = millis % 1000;
    // Division in `i64` rounds toward zero; below zero the second began one
    // earlier, and the rest counts up from there.
    let (secs, past): (i64, i64) = if rest < 0 {
        (whole - 1, rest + 1000)
    } else {
        (whole, rest)
    };
    assert(secs == floor_secs(millis) && past * 1_000_000 == nanos_past(millis));
    let nanos: u32 = (past * 1_000_000) as u32;
    match format_rfc3339(secs, nanos) {
        Some(s) => s,
        None => String::new(),
    }
}

/// The text for an unsigned count of milliseconds since the epoch.
pub open spec fn epoch_ms_text(ms: u64) -> Option<Seq<char>> {
    rfc3339_text((ms / 1000) as i64, ((ms % 1000) * 1_000_000) as u32)
}

/// Formats an unsigned count of milliseconds since the epoch as RFC 3339.
pub fn epoch_ms_to_rfc3339(ms: u64) -> (r: Option<String>)
    ensures
        match r {
            Some(s) => epoch_ms_text(ms) == Some(s@),
            None => epoch_ms_text(ms) is None,
        },
{
    let secs: i64 = (ms / 1000) as i64;
    let nanos: u32 = ((ms % 1000) * 1_000_000) as u32;
    format_rfc3339(secs, nanos)
}

/// A count of milliseconds that is not below zero has the same text whether
/// it is read as a signed or as an unsigned number.
pub proof fn lemma_signed_and_unsigned_agree(millis: i64)
    requires
        millis >= 0,
    ensures
        millis_text(millis) == match epoch_ms_text(millis as u64) {
            Some(s) => s,
            None => Seq::empty(),
        },
{
}

} // verus!
