//! Rendering instants through strftime formats.

use vstd::prelude::*;

use std::fmt::Write;

verus! {

/// The instant that a format is tried on to see whether it renders: the
/// Unix epoch, in nanoseconds since itself.
pub const SAMPLE_INSTANT: i64 = 0;

/// The rendering of an instant, given in nanoseconds since the Unix epoch,
/// in UTC through a strftime format; `None` where the format does not
/// render.
pub uninterp spec fn strftime_rendering(nanos: i64, format: Seq<char>) -> Option<Seq<char>>;

/// True when a format renders the sample instant.
pub open spec fn spec_renders_sample(format: Seq<char>) -> bool {
    strftime_rendering(SAMPLE_INSTANT, format) is Some
}

/// Renders an instant through `chrono::DateTime::format_with_items`, with
/// `DateTime::from_timestamp_nanos` and `StrftimeItems::new`.
///
/// Trusted: the result is chrono's rendering in UTC, `None` where chrono
/// reports a formatting error.
#[verifier::external_body]
pub(crate) fn render_time(nanos: i64, format: &str) -> (text: Option<String>)
    ensures
        text is Some <==> strftime_rendering(nanos, format@) is Some,
        text matches Some(s) ==> strftime_rendering(nanos, format@) == Some(s@),
{
    let mut out = String::new();
    let items = chrono::format::StrftimeItems::new(format);
    let instant = chrono::DateTime::from_timestamp_nanos(nanos);
    write!(out, "{}", instant.format_with_items(items)).ok().map(|_| out)
}

/// Tells whether a format renders the sample instant.
pub fn renders_sample(format: &str) -> (renders: bool)
    ensures
        renders == spec_renders_sample(format@),
{
    render_time(SAMPLE_INSTANT, format).is_some()
}

} // verus!
