use notification::clock::{
    beijing_now_string, beijing_time_string, choose_time, current_timestamp_millis,
    current_timestamp_secs, format_notification_time, timestamp_millis, timestamp_secs, Span,
    Stopwatch,
};
use notification::templates::render_time_value;

#[test]
fn shows_times_without_a_zone_as_they_stand() {
    assert_eq!(format_notification_time("2026-05-14 16:30:45"), "2026-05-14 16:30:45");
    assert_eq!(format_notification_time("2026-05-14T16:30:45"), "2026-05-14 16:30:45");
}

#[test]
fn shows_times_with_a_zone_in_beijing_time() {
    assert_eq!(format_notification_time(" 2026-12-31T20:00:00-05:00 "), "2027-01-01 09:00:00");
    assert_eq!(format_notification_time("2026-05-14T16:30:45.678Z"), "2026-05-15 00:30:45");
}

#[test]
fn shows_other_texts_as_they_are() {
    assert_eq!(format_notification_time(" just now "), "just now");
    assert_eq!(format_notification_time("2026-13-01 00:00:00"), "2026-13-01 00:00:00");
    assert_eq!(format_notification_time(" \t"), "");
}

#[test]
fn takes_the_first_reading_of_a_time() {
    let some = |text: &str| Some(text.to_string());
    assert_eq!(choose_time("x", some("a"), some("b"), some("c")), "a");
    assert_eq!(choose_time("x", None, some("b"), some("c")), "b");
    assert_eq!(choose_time("x", None, None, some("c")), "c");
    assert_eq!(choose_time(" x ", None, None, None), "x");
    assert_eq!(choose_time(" ", some("a"), None, None), "");
}

#[test]
fn escapes_times_in_json_templates() {
    assert_eq!(render_time_value("at \"noon\"", true), "at \\\"noon\\\"");
    assert_eq!(render_time_value("at \"noon\"", false), "at \"noon\"");
}

#[test]
fn counts_seconds_and_milliseconds_since_the_epoch() {
    let passed = Some(Span { secs: 1700000000, nanos: 123_999_999 });
    assert_eq!(timestamp_secs(passed), 1700000000);
    assert_eq!(timestamp_millis(passed), 1700000000123);
    assert_eq!(timestamp_secs(None), 0);
    assert_eq!(timestamp_millis(None), 0);
}

#[test]
fn reads_the_system_clock() {
    let before = current_timestamp_secs();
    let millis = current_timestamp_millis();
    let after = current_timestamp_secs();
    assert!(before > 1_600_000_000);
    assert!(u128::from(before) <= millis / 1000);
    assert!(millis / 1000 <= u128::from(after));
}

#[test]
fn writes_the_current_time_as_notifications_do() {
    let now = beijing_now_string();
    assert_eq!(now.len(), "2026-05-14 16:30:45".len());
    assert_eq!(format_notification_time(&now), now);
}

#[test]
fn a_stopwatch_counts_from_its_start() {
    let mut stopwatch = Stopwatch::start();
    let first = stopwatch.elapsed();
    let second = stopwatch.elapsed();
    assert!(first.nanos < 1_000_000_000);
    assert!(first.as_nanos() <= second.as_nanos());
    assert!(second.secs < 60);
}

#[test]
fn a_span_is_so_many_nanoseconds() {
    assert_eq!(Span { secs: 2, nanos: 5 }.as_nanos(), 2_000_000_005);
}

#[test]
fn white_space_around_a_time_does_not_matter() {
    for time in ["2026-05-14T16:30:45Z", "2026-05-14 16:30:45", "soon"] {
        assert_eq!(
            format_notification_time(&format!("\u{3000}{}\n", time)),
            format_notification_time(time)
        );
    }
}

#[test]
fn a_stopwatch_never_runs_backwards() {
    let mut stopwatch = Stopwatch::start();
    let late = Span { secs: 1_000_000, nanos: 5 };
    assert_eq!(stopwatch.read(late), late);
    assert_eq!(stopwatch.read(Span { secs: 7, nanos: 0 }), late);
    assert_eq!(stopwatch.elapsed(), late);
    let later = Span { secs: 1_000_000, nanos: 6 };
    assert_eq!(stopwatch.read(later), later);
}

#[test]
fn writes_a_time_in_beijing_time() {
    let at = |secs: u64, nanos: u32| beijing_time_string(Some(Span { secs, nanos }));
    assert_eq!(at(0, 0), "1970-01-01 08:00:00");
    assert_eq!(at(1_778_776_245, 999_999_999), "2026-05-15 00:30:45");
    assert_eq!(at(1_709_135_999, 0), "2024-02-28 23:59:59");
    assert_eq!(at(1_709_136_000, 0), "2024-02-29 00:00:00");
    assert_eq!(at(8_210_266_876_799, 0), "+262143-01-01 07:59:59");
}

#[test]
fn a_clock_that_shows_no_such_time_shows_the_epoch() {
    assert_eq!(beijing_time_string(None), "1970-01-01 08:00:00");
    let late = Span { secs: 8_210_266_876_800, nanos: 0 };
    assert_eq!(beijing_time_string(Some(late)), "1970-01-01 08:00:00");
}

#[test]
fn one_moment_is_shown_alike_from_every_zone() {
    for time in [
        "2026-05-14T16:30:45Z",
        "2026-05-14T16:30:45.999999999Z",
        "2026-05-15 00:30:45+08:00",
        "2026-05-13t16:31:45-23:59",
        "2026-05-15T16:29:45.5+23:59",
    ] {
        assert_eq!(format_notification_time(time), "2026-05-15 00:30:45");
    }
}

#[test]
fn leap_seconds_are_shown() {
    assert_eq!(format_notification_time("2016-12-31T23:59:60Z"), "2017-01-01 07:59:60");
    assert_eq!(format_notification_time("2016-12-31T23:59:60.5Z"), "2017-01-01 07:59:60");
    assert_eq!(format_notification_time("2017-01-01T07:59:60"), "2017-01-01 07:59:60");
}

#[test]
fn a_formatted_time_is_not_shifted_again() {
    for time in [
        "2026-05-14T16:30:45Z",
        "2016-12-31T23:59:60Z",
        "9999-12-31T23:59:59Z",
        "9999-12-31T23:59:59-23:59",
        "0000-01-01T00:00:00+23:59",
        "0042-03-01T00:00:00",
        "+262142-12-31 23:59:59",
        "+10000-01-01T00:00:00",
        "-0001-12-31 00:00:00",
        "-262143-01-01 00:00:00",
        "2026-5-4 3:2:1",
        " soon ",
        "",
    ] {
        let once = format_notification_time(time);
        assert_eq!(format_notification_time(&once), once);
    }
    assert_eq!(format_notification_time("9999-12-31T23:59:59Z"), "+10000-01-01 07:59:59");
    assert_eq!(format_notification_time("-0001-12-31T00:00:00"), "-0001-12-31 00:00:00");
    assert_eq!(format_notification_time("-262143-01-01 00:00:00"), "-262143-01-01 00:00:00");
}

#[test]
fn the_json_flag_leaves_ordinary_times() {
    for time in ["2026-05-14T16:30:45Z", "2026-05-14 16:30:45", "soon", ""] {
        assert_eq!(render_time_value(time, true), format_notification_time(time));
        assert_eq!(render_time_value(time, false), format_notification_time(time));
    }
}
