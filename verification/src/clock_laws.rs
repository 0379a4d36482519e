//! What holds of clocks and of the times that are shown.
use crate::calendar::shown_time;
use crate::clock::{
    beijing_time, chosen_time, clock_moment, epoch_millis, epoch_secs, is_reading, later_span,
    notification_time, read_naive, read_rfc3339, Span,
};
use crate::text::{is_blank, trimmed};
use vstd::prelude::*;

verus! {

/// A timestamp with a zone is shown eight hours east of UTC, and one without a zone as it
/// stands, with a space or a `T` between date and time. Of a blank timestamp nothing is shown,
/// and any other text is shown as it is, without the white space around it.
pub proof fn law_timestamp_is_shown_by_its_form(value: Seq<char>)
    ensures
        ({
            let shown = notification_time(value);
            let zoned = read_rfc3339(trimmed(value));
            let spaced = read_naive(trimmed(value), "%Y-%m-%d %H:%M:%S"@);
            let joined = read_naive(trimmed(value), "%Y-%m-%dT%H:%M:%S"@);
            &&& is_blank(value) ==> shown.len() == 0
            &&& !is_blank(value) ==> shown == (if zoned is Some {
                shown_time(zoned->0.secs + 28800, zoned->0.nanos >= 1_000_000_000)
            } else if spaced is Some {
                shown_time(spaced->0.secs as int, spaced->0.nanos >= 1_000_000_000)
            } else if joined is Some {
                shown_time(joined->0.secs as int, joined->0.nanos >= 1_000_000_000)
            } else {
                trimmed(value)
            })
        }),
{
}

/// Of the readings of a timestamp, the first that succeeded is shown; without one, the text as
/// it is. Of a blank timestamp nothing is shown, whatever the readings are.
pub proof fn law_first_reading_is_shown(
    value: Seq<char>,
    reading: Seq<char>,
    second: Option<Seq<char>>,
    third: Option<Seq<char>>,
)
    ensures
        is_blank(value) ==> forall|first: Option<Seq<char>>| #[trigger]
            chosen_time(value, first, second, third).len() == 0,
        !is_blank(value) ==> chosen_time(value, Some(reading), second, third) == reading,
        !is_blank(value) ==> chosen_time(value, None, Some(reading), third) == reading,
        !is_blank(value) ==> chosen_time(value, None, None, Some(reading)) == reading,
        !is_blank(value) ==> chosen_time(value, None, None, None) == trimmed(value),
{
}

/// The system clock is shown eight hours east of UTC; a time before the epoch, or too late to
/// be held, is shown as the epoch.
pub proof fn law_clock_is_shown_in_beijing_time(span: Span)
    requires
        span.nanos < 1_000_000_000,
    ensures
        is_reading(Some(span)),
        is_reading(None),
        beijing_time(None) == shown_time(28800, false),
        beijing_time(Some(span)) == shown_time(
            if span.secs <= 8_210_266_876_799 {
                span.secs + 28800
            } else {
                28800
            },
            false,
        ),
        span.secs <= 8_210_266_876_799 ==> clock_moment(Some(span)).nanos == span.nanos,
{
}

/// The clock counts whole seconds and whole milliseconds since the epoch, and zero before it.
pub proof fn law_clock_counts_from_the_epoch(span: Span)
    ensures
        is_reading(Some(span)) <==> span.nanos < 1_000_000_000,
        epoch_secs(None) == 0,
        epoch_millis(None) == 0,
        epoch_secs(Some(span)) == span.secs,
        epoch_millis(Some(span)) == span.secs * 1000 + span.nanos / 1_000_000,
{
}

/// The later of two spans is one of them, and no shorter than either.
pub proof fn law_later_span_is_the_longer(a: Span, b: Span)
    ensures
        later_span(a, b) == a || later_span(a, b) == b,
        a.secs * 1_000_000_000 + a.nanos <= later_span(a, b).total_nanos(),
        b.secs * 1_000_000_000 + b.nanos <= later_span(a, b).total_nanos(),
        later_span(a, b).total_nanos() == later_span(a, b).secs * 1_000_000_000 + later_span(
            a,
            b,
        ).nanos,
{
}

} // verus!
