//! Time: the current time, the time since a start, and the rendering of timestamps
//! in Beijing time.
use crate::calendar::{is_time_char, lemma_shown_time, shown_time};
use crate::text::{is_blank, law_trimming_twice_is_trimming_once, opt_view, trim, trimmed};
use std::time::{Instant, SystemTime};
use vstd::prelude::*;

verus! {

/// The offset of Beijing time from UTC.
pub const BEIJING_UTC_OFFSET_SECONDS: i32 = 28800;

/// How notifications write times.
pub const NOTIFICATION_TIME_FORMAT: &'static str = "%Y-%m-%d %H:%M:%S";

/// A point on the system clock.
#[verifier::external_type_specification]
#[verifier::external_body]
pub struct ExSystemTime(SystemTime);

/// A point on the monotonic clock.
#[verifier::external_type_specification]
#[verifier::external_body]
pub struct ExInstant(Instant);

/// A span of time: whole seconds and the nanoseconds beyond them.
#[derive(Clone, Copy, Debug, PartialEq, Eq, Structural)]
pub struct Span {
    pub secs: u64,
    pub nanos: u32,
}

impl Span {
    /// Whether the nanoseconds make less than a second.
    pub open spec fn is_proper(self) -> bool {
        self.nanos < 1_000_000_000
    }

    /// The span in nanoseconds.
    pub open spec fn total_nanos(self) -> int {
        self.secs * 1_000_000_000 + self.nanos
    }

    /// The span in nanoseconds.
    pub fn as_nanos(self) -> (nanos: u128)
        ensures
            nanos == self.total_nanos(),
    {
        self.secs as u128 * 1_000_000_000 + self.nanos as u128
    }
}

/// The longer of two spans.
pub open spec fn later_span(a: Span, b: Span) -> Span {
    if a.total_nanos() < b.total_nanos() {
        b
    } else {
        a
    }
}

/// `SystemTime::now`: the time that the system clock shows; nothing is known of it.
#[verifier::external_body]
fn system_now() -> (now: SystemTime) {
    SystemTime::now()
}

/// `SystemTime::duration_since` the Unix epoch: the time passed since then, or nothing
/// for a time before it. A `Duration` has less than a second of nanoseconds.
#[verifier::external_body]
fn since_epoch(time: SystemTime) -> (passed: Option<Span>)
    ensures
        passed matches Some(span) ==> span.is_proper(),
{
    match time.duration_since(SystemTime::UNIX_EPOCH) {
        Ok(passed) => Some(Span { secs: passed.as_secs(), nanos: passed.subsec_nanos() }),
        Err(_) => None,
    }
}

/// The whole seconds of the time passed since the epoch; zero before it.
pub open spec fn epoch_secs(passed: Option<Span>) -> u64 {
    match passed {
        Some(span) => span.secs,
        None => 0,
    }
}

/// The whole milliseconds of the time passed since the epoch; zero before it.
pub open spec fn epoch_millis(passed: Option<Span>) -> int {
    match passed {
        Some(span) => span.total_nanos() / 1_000_000,
        None => 0,
    }
}

/// Whether the time passed since the epoch can be a reading of the system clock.
pub open spec fn is_reading(passed: Option<Span>) -> bool {
    passed matches Some(span) ==> span.is_proper()
}

/// The whole seconds of the time passed since the epoch; zero before it.
pub fn timestamp_secs(passed: Option<Span>) -> (secs: u64)
    ensures
        secs == epoch_secs(passed),
{
    match passed {
        Some(span) => span.secs,
        None => 0,
    }
}

/// The whole milliseconds of the time passed since the epoch; zero before it.
pub fn timestamp_millis(passed: Option<Span>) -> (millis: u128)
    ensures
        millis == epoch_millis(passed),
{
    match passed {
        Some(span) => span.as_nanos() / 1_000_000,
        None => 0,
    }
}

/// The system clock in seconds since the epoch; zero if it shows an earlier time.
pub fn current_timestamp_secs() -> (secs: u64)
    ensures
        exists|passed: Option<Span>| #[trigger] is_reading(passed) && epoch_secs(passed) == secs,
{
    let passed = since_epoch(system_now());
    assert(is_reading(passed));
    timestamp_secs(passed)
}

/// The system clock in milliseconds since the epoch; zero if it shows an earlier time.
pub fn current_timestamp_millis() -> (millis: u128)
    ensures
        exists|passed: Option<Span>| #[trigger]
            is_reading(passed) && epoch_millis(passed) == millis,
{
    let passed = since_epoch(system_now());
    assert(is_reading(passed));
    timestamp_millis(passed)
}

/// `Instant::now`: a point on the monotonic clock; nothing is known of it.
#[verifier::external_body]
fn instant_now() -> (now: Instant) {
    Instant::now()
}

/// `Instant::elapsed`: the time passed since the point. A `Duration` has less than a
/// second of nanoseconds.
#[verifier::external_body]
fn elapsed_since(start: &Instant) -> (passed: Span)
    ensures
        passed.is_proper(),
{
    let passed = start.elapsed();
    Span { secs: passed.as_secs(), nanos: passed.subsec_nanos() }
}

/// A clock that never runs backwards and counts from its own start.
pub struct Stopwatch {
    start: Instant,
    last: Span,
}

impl Stopwatch {
    #[verifier::type_invariant]
    spec fn has_proper_reading(self) -> bool {
        self.last.is_proper()
    }

    /// The last reading; the start itself where there was none.
    pub closed spec fn last(self) -> Span {
        self.last
    }

    /// A clock that starts now.
    pub fn start() -> (stopwatch: Stopwatch)
        ensures
            stopwatch.last().total_nanos() == 0,
    {
        Stopwatch { start: instant_now(), last: Span { secs: 0, nanos: 0 } }
    }

    /// The reading for the time passed since the start: that time, or the last reading where
    /// that is later.
    pub fn read(&mut self, passed: Span) -> (reading: Span)
        requires
            passed.is_proper(),
        ensures
            reading == later_span(old(self).last(), passed),
            final(self).last() == reading,
            reading.is_proper(),
    {
        proof {
            use_type_invariant(&*self);
        }
        if self.last.as_nanos() < passed.as_nanos() {
            self.last = passed;
        }
        self.last
    }

    /// The time passed since the start: no less than at any earlier reading.
    pub fn elapsed(&mut self) -> (reading: Span)
        ensures
            reading.is_proper(),
            old(self).last().total_nanos() <= reading.total_nanos(),
            final(self).last() == reading,
    {
        let passed = elapsed_since(&self.start);
        self.read(passed)
    }
}

/// The first second that `chrono` can hold, counted from the Unix epoch: the beginning of the
/// year -262143.
pub const MIN_UTC_SECS: i64 = -8_334_601_228_800;

/// The last second that `chrono` can hold, counted from the Unix epoch: the end of the year
/// 262142.
pub const MAX_UTC_SECS: i64 = 8_210_266_876_799;

/// A point in time: seconds since the Unix epoch, and the nanoseconds beyond them. A leap
/// second is told by a thousand million nanoseconds more.
#[derive(Clone, Copy, Debug, PartialEq, Eq, Structural)]
pub struct Moment {
    pub secs: i64,
    pub nanos: u32,
}

impl Moment {
    /// Whether the moment lies in a leap second.
    pub open spec fn is_leap(self) -> bool {
        self.nanos >= 1_000_000_000
    }

    /// Whether `chrono` can hold the moment. A leap second follows the last second of a
    /// minute.
    pub open spec fn is_proper(self) -> bool {
        &&& MIN_UTC_SECS <= self.secs <= MAX_UTC_SECS
        &&& self.nanos < 2_000_000_000
        &&& self.is_leap() ==> self.secs as int % 60 == 59
    }
}

/// The text of a moment in the zone `offset_seconds` east of UTC.
pub open spec fn moment_text(moment: Moment, offset_seconds: int) -> Seq<char> {
    shown_time(moment.secs + offset_seconds, moment.is_leap())
}

/// `with_timezone` and `format` of the `DateTime` that `DateTime::from_timestamp` makes of the
/// moment: by this format `chrono` writes the year, month and day of the Gregorian calendar and
/// the hour, minute and second of the day, numbers in two digits and years in four, with a sign
/// where they take more or are negative. A fraction of a second is dropped. The offset is one
/// that a `FixedOffset` has.
#[verifier::external_body]
fn render_moment(moment: Moment, offset_seconds: i32, format: &str) -> (result: String)
    requires
        moment.is_proper(),
        -86400 < offset_seconds < 86400,
        format@ == NOTIFICATION_TIME_FORMAT@,
    ensures
        result@ == moment_text(moment, offset_seconds as int),
{
    let zone = chrono::FixedOffset::east_opt(offset_seconds).unwrap();
    let time = chrono::DateTime::from_timestamp(moment.secs, moment.nanos).unwrap();
    time.with_timezone(&zone).format(format).to_string()
}

/// Whether a text is that of a moment, shown as it stands.
pub open spec fn is_moment_text(text: Seq<char>) -> bool {
    exists|moment: Moment| moment.is_proper() && #[trigger] moment_text(moment, 0) == text
}

/// The moment without its fraction of a second.
pub open spec fn whole_moment(moment: Moment) -> Moment {
    Moment {
        secs: moment.secs,
        nanos: if moment.is_leap() {
            1_000_000_000
        } else {
            0
        },
    }
}

/// The moment that is shown by a text, in whole seconds.
pub open spec fn moment_shown(text: Seq<char>) -> Moment {
    whole_moment(
        choose|moment: Moment| moment.is_proper() && #[trigger] moment_text(moment, 0) == text,
    )
}

/// What `chrono` reads from an RFC 3339 timestamp: nothing of any other text, else the moment.
pub uninterp spec fn rfc3339_moment(text: Seq<char>) -> Option<Moment>;

/// Whether a moment lies in the years that an RFC 3339 timestamp writes, 0 to 9999, or less
/// than a day beyond them.
pub open spec fn is_rfc3339_moment(moment: Moment) -> bool {
    moment.is_proper() && -62_167_305_600 <= moment.secs <= 253_402_387_199
}

/// The reading of an RFC 3339 timestamp, given what `chrono` makes of the text: a text without
/// a zone is none, and the year has four digits.
pub open spec fn rfc3339_reading(text: Seq<char>, moment: Option<Moment>) -> Option<Moment> {
    if text.len() == 0 || is_moment_text(text) {
        None
    } else {
        match moment {
            Some(moment) => if is_rfc3339_moment(moment) {
                Some(moment)
            } else {
                None
            },
            None => None,
        }
    }
}

/// The reading of an RFC 3339 timestamp.
pub open spec fn read_rfc3339(text: Seq<char>) -> Option<Moment> {
    rfc3339_reading(text, rfc3339_moment(text))
}

/// `DateTime::parse_from_rfc3339`: no text is read but an RFC 3339 timestamp, which is not
/// empty, has a zone and a year of four digits; the text alone decides the moment.
#[verifier::external_body]
fn parse_rfc3339(value: &str) -> (result: Option<Moment>)
    ensures
        result == rfc3339_reading(value@, rfc3339_moment(value@)),
{
    let time = chrono::DateTime::parse_from_rfc3339(value).ok()?;
    Some(Moment { secs: time.timestamp(), nanos: time.timestamp_subsec_nanos() })
}

/// What `chrono` reads from a timestamp without a zone: nothing of a text that is not of
/// `pattern`, else the moment at which UTC shows it.
pub uninterp spec fn naive_moment(text: Seq<char>, pattern: Seq<char>) -> Option<Moment>;

/// The reading of a timestamp without a zone, given what `chrono` makes of the text: `chrono`
/// reads back what it writes by the same format.
pub open spec fn naive_reading(
    text: Seq<char>,
    pattern: Seq<char>,
    moment: Option<Moment>,
) -> Option<Moment> {
    if pattern == NOTIFICATION_TIME_FORMAT@ && is_moment_text(text) {
        Some(moment_shown(text))
    } else {
        match moment {
            Some(moment) => if moment.is_proper() {
                Some(moment)
            } else {
                None
            },
            None => None,
        }
    }
}

/// The reading of a timestamp without a zone.
pub open spec fn read_naive(text: Seq<char>, pattern: Seq<char>) -> Option<Moment> {
    naive_reading(text, pattern, naive_moment(text, pattern))
}

/// `NaiveDateTime::parse_from_str`: no text is read but one of `pattern`, and the two alone
/// decide the moment, which is one that `chrono` can hold. By the format of notifications, a
/// text that `chrono` writes is read as what it shows. The pattern is one of the two that
/// timestamps without a zone are read by: by others, `chrono` can panic.
#[verifier::external_body]
fn parse_naive(value: &str, pattern: &str) -> (result: Option<Moment>)
    requires
        pattern@ == NOTIFICATION_TIME_FORMAT@ || pattern@ == "%Y-%m-%dT%H:%M:%S"@,
    ensures
        result == naive_reading(value@, pattern@, naive_moment(value@, pattern@)),
{
    let time = chrono::NaiveDateTime::parse_from_str(value, pattern).ok()?.and_utc();
    Some(Moment { secs: time.timestamp(), nanos: time.timestamp_subsec_nanos() })
}

/// The moment that a reading of the system clock tells: the epoch where the clock shows an
/// earlier time, or one that `chrono` cannot hold.
pub open spec fn clock_moment(passed: Option<Span>) -> Moment {
    match passed {
        Some(span) => if span.secs <= MAX_UTC_SECS {
            Moment { secs: span.secs as i64, nanos: span.nanos }
        } else {
            Moment { secs: 0, nanos: 0 }
        },
        None => Moment { secs: 0, nanos: 0 },
    }
}

/// The text of the time that a reading of the system clock tells, in Beijing time.
pub open spec fn beijing_time(passed: Option<Span>) -> Seq<char> {
    moment_text(clock_moment(passed), BEIJING_UTC_OFFSET_SECONDS as int)
}

/// The text of the time that a reading of the system clock tells, in Beijing time.
pub fn beijing_time_string(passed: Option<Span>) -> (result: String)
    requires
        is_reading(passed),
    ensures
        result@ == beijing_time(passed),
{
    let epoch = Moment { secs: 0, nanos: 0 };
    let moment = match passed {
        Some(span) => if span.secs <= MAX_UTC_SECS as u64 {
            Moment { secs: span.secs as i64, nanos: span.nanos }
        } else {
            epoch
        },
        None => epoch,
    };
    render_moment(moment, BEIJING_UTC_OFFSET_SECONDS, NOTIFICATION_TIME_FORMAT)
}

/// The text of the current time, in Beijing time.
pub fn beijing_now_string() -> (result: String)
    ensures
        exists|passed: Option<Span>| #[trigger]
            is_reading(passed) && result@ == beijing_time(passed),
{
    let passed = since_epoch(system_now());
    assert(is_reading(passed));
    beijing_time_string(passed)
}

/// The text of a timestamp, given the readings of it: nothing of a blank one, else the
/// first reading that succeeded, else the timestamp as it is.
pub open spec fn chosen_time(
    value: Seq<char>,
    rfc3339: Option<Seq<char>>,
    spaced: Option<Seq<char>>,
    joined: Option<Seq<char>>,
) -> Seq<char> {
    if is_blank(value) {
        seq![]
    } else if rfc3339 is Some {
        rfc3339->0
    } else if spaced is Some {
        spaced->0
    } else if joined is Some {
        joined->0
    } else {
        trimmed(value)
    }
}

/// The text of a moment in the zone `offset_seconds` east of UTC, where there is one.
pub open spec fn moment_text_if(moment: Option<Moment>, offset_seconds: int) -> Option<Seq<char>> {
    match moment {
        Some(moment) => Some(moment_text(moment, offset_seconds)),
        None => None,
    }
}

/// The text of a timestamp in a notification. A timestamp with a zone is shown in
/// Beijing time; one without is shown as it stands.
pub open spec fn notification_time(value: Seq<char>) -> Seq<char> {
    let text = trimmed(value);
    chosen_time(
        value,
        moment_text_if(read_rfc3339(text), BEIJING_UTC_OFFSET_SECONDS as int),
        moment_text_if(read_naive(text, "%Y-%m-%d %H:%M:%S"@), 0),
        moment_text_if(read_naive(text, "%Y-%m-%dT%H:%M:%S"@), 0),
    )
}

/// White space around a timestamp does not matter.
pub proof fn law_white_space_around_a_time_is_ignored(value: Seq<char>)
    ensures
        notification_time(trimmed(value)) == notification_time(value),
{
    law_trimming_twice_is_trimming_once(value);
}

/// Chooses among the readings of a timestamp: the first that succeeded, and the
/// timestamp itself where none did.
pub fn choose_time(
    value: &str,
    rfc3339: Option<String>,
    spaced: Option<String>,
    joined: Option<String>,
) -> (result: String)
    ensures
        result@ == chosen_time(
            value@,
            opt_view(rfc3339),
            opt_view(spaced),
            opt_view(joined),
        ),
{
    let value = trim(value);
    if value.is_empty() {
        return String::new();
    }
    match (rfc3339, spaced, joined) {
        (Some(text), _, _) => text,
        (None, Some(text), _) => text,
        (None, None, Some(text)) => text,
        (None, None, None) => value.to_owned(),
    }
}

fn render_if(moment: Option<Moment>, offset_seconds: i32) -> (result: Option<String>)
    requires
        moment matches Some(moment) ==> moment.is_proper(),
        -86400 < offset_seconds < 86400,
    ensures
        opt_view(result) == moment_text_if(moment, offset_seconds as int),
{
    match moment {
        Some(moment) => Some(render_moment(moment, offset_seconds, NOTIFICATION_TIME_FORMAT)),
        None => None,
    }
}

/// A reading is a moment that `chrono` can hold.
proof fn lemma_readings_are_proper(text: Seq<char>, pattern: Seq<char>)
    ensures
        read_rfc3339(text) matches Some(moment) ==> moment.is_proper(),
        read_naive(text, pattern) matches Some(moment) ==> moment.is_proper(),
{
}

/// The text of a timestamp in a notification.
pub fn format_notification_time(value: &str) -> (result: String)
    ensures
        result@ == notification_time(value@),
{
    let text = trim(value);
    let rfc3339 = parse_rfc3339(text);
    let spaced = parse_naive(text, "%Y-%m-%d %H:%M:%S");
    let joined = parse_naive(text, "%Y-%m-%dT%H:%M:%S");
    proof {
        lemma_readings_are_proper(text@, "%Y-%m-%d %H:%M:%S"@);
        lemma_readings_are_proper(text@, "%Y-%m-%dT%H:%M:%S"@);
    }
    choose_time(
        value,
        render_if(rfc3339, BEIJING_UTC_OFFSET_SECONDS),
        render_if(spaced, 0),
        render_if(joined, 0),
    )
}

/// Timestamps with a zone that tell the same second are shown alike, whatever their zones and
/// fractions of the second: by that second in Beijing time.
pub proof fn law_moments_are_shown_alike(a: Seq<char>, b: Seq<char>)
    requires
        read_rfc3339(trimmed(a)) is Some,
        read_rfc3339(trimmed(b)) is Some,
        whole_moment(read_rfc3339(trimmed(a))->0) == whole_moment(read_rfc3339(trimmed(b))->0),
    ensures
        notification_time(a) == notification_time(b),
        notification_time(a) == shown_time(
            read_rfc3339(trimmed(a))->0.secs + 28800,
            read_rfc3339(trimmed(a))->0.is_leap(),
        ),
{
}

/// A time that was formatted is formatted as it stands: it is not shifted again.
pub proof fn law_formatting_twice_is_formatting_once(value: Seq<char>)
    ensures
        notification_time(notification_time(value)) == notification_time(value),
{
    let text = trimmed(value);
    let time = notification_time(value);
    let rfc3339 = read_rfc3339(text);
    let spaced = read_naive(text, "%Y-%m-%d %H:%M:%S"@);
    let joined = read_naive(text, "%Y-%m-%dT%H:%M:%S"@);
    lemma_readings_are_proper(text, "%Y-%m-%d %H:%M:%S"@);
    lemma_readings_are_proper(text, "%Y-%m-%dT%H:%M:%S"@);
    if is_blank(value) || (rfc3339 is None && spaced is None && joined is None) {
        assert(time =~= text);
        law_white_space_around_a_time_is_ignored(value);
    } else if rfc3339 is Some {
        let moment = rfc3339->0;
        let shifted = Moment { secs: (moment.secs + 28800) as i64, nanos: moment.nanos };
        assert(shifted.is_proper());
        assert(time == moment_text(shifted, 0));
        lemma_shown_as_it_stands(shifted);
    } else if spaced is Some {
        assert(time == moment_text(spaced->0, 0));
        lemma_shown_as_it_stands(spaced->0);
    } else {
        assert(time == moment_text(joined->0, 0));
        lemma_shown_as_it_stands(joined->0);
    }
}

proof fn lemma_shown_as_it_stands(moment: Moment)
    requires
        moment.is_proper(),
    ensures
        notification_time(moment_text(moment, 0)) == moment_text(moment, 0),
{
    let text = moment_text(moment, 0);
    lemma_shown_time(moment.secs as int, moment.is_leap());
    assert(is_moment_text(text));
    let shown = choose|moment: Moment|
        moment.is_proper() && #[trigger] moment_text(moment, 0) == text;
    assert(moment_text(whole_moment(shown), 0) == text);
}

/// What stands in a notification for a timestamp is the timestamp without the white space
/// around it, or made of digits, signs, colons and spaces.
pub(crate) proof fn lemma_notification_time_is_a_time_or_the_text(value: Seq<char>)
    ensures
        ({
            let time = notification_time(value);
            ||| time == trimmed(value)
            ||| forall|i: int| 0 <= i < time.len() ==> is_time_char(#[trigger] time[i])
        }),
{
    let text = trimmed(value);
    let rfc3339 = read_rfc3339(text);
    let spaced = read_naive(text, "%Y-%m-%d %H:%M:%S"@);
    let joined = read_naive(text, "%Y-%m-%dT%H:%M:%S"@);
    if !is_blank(value) {
        if rfc3339 is Some {
            lemma_shown_time(rfc3339->0.secs + 28800, rfc3339->0.is_leap());
        } else if spaced is Some {
            lemma_shown_time(spaced->0.secs as int, spaced->0.is_leap());
        } else if joined is Some {
            lemma_shown_time(joined->0.secs as int, joined->0.is_leap());
        }
    }
}

} // verus!
