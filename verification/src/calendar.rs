//! The calendar: how a time counted in seconds is shown as a date and a time of day.
use crate::text::{digit_char, is_digit, is_white_space, natural_text, trimmed};
use vstd::prelude::*;

verus! {

/// A date of the Gregorian calendar, which is taken to hold for all years; the year before
/// the year 1 is the year 0.
pub struct Date {
    pub year: int,
    pub month: int,
    pub day: int,
}

/// Whether a year has 366 days.
pub open spec fn is_leap_year(year: int) -> bool {
    year % 4 == 0 && (year % 100 != 0 || year % 400 == 0)
}

/// The number of days in a month.
pub open spec fn days_in_month(year: int, month: int) -> int {
    if month == 2 {
        if is_leap_year(year) {
            29
        } else {
            28
        }
    } else if month == 4 || month == 6 || month == 9 || month == 11 {
        30
    } else {
        31
    }
}

/// The number of days between the beginning of the year 1 and that of a year.
pub open spec fn days_before_year(year: int) -> int {
    365 * (year - 1) + (year - 1) / 4 - (year - 1) / 100 + (year - 1) / 400
}

/// The number of days between the beginning of a year and that of one of its months.
pub open spec fn days_before_month(year: int, month: int) -> int
    decreases month,
{
    if month <= 1 {
        0
    } else {
        days_before_month(year, month - 1) + days_in_month(year, month - 1)
    }
}

impl Date {
    /// Whether the calendar has the date.
    pub open spec fn is_valid(self) -> bool {
        1 <= self.month <= 12 && 1 <= self.day <= days_in_month(self.year, self.month)
    }

    /// The number of days from the date 1970-01-01 to this one.
    pub open spec fn days_since_epoch(self) -> int {
        days_before_year(self.year) + days_before_month(self.year, self.month) + self.day - 719163
    }
}

/// The date so many days after 1970-01-01.
pub open spec fn date_of(days: int) -> Date {
    choose|date: Date| #[trigger] date.is_valid() && date.days_since_epoch() == days
}

/// A number below a hundred in two digits.
pub open spec fn two_digits(n: int) -> Seq<char> {
    seq![digit_char(n / 10 % 10), digit_char(n % 10)]
}

/// A number in four digits, or more where it takes more.
pub open spec fn four_digits(n: int) -> Seq<char> {
    if 0 <= n <= 9999 {
        two_digits(n / 100) + two_digits(n % 100)
    } else {
        natural_text(n as nat)
    }
}

/// A year: four digits, and a sign before any other than those from 0 to 9999.
pub open spec fn year_text(year: int) -> Seq<char> {
    if 0 <= year <= 9999 {
        four_digits(year)
    } else if year < 0 {
        seq!['-'] + four_digits(-year)
    } else {
        seq!['+'] + four_digits(year)
    }
}

/// A date with dashes in it.
pub open spec fn date_text(date: Date) -> Seq<char> {
    year_text(date.year) + seq!['-'] + two_digits(date.month) + seq!['-'] + two_digits(date.day)
}

/// The date and the time of day so many seconds after the beginning of 1970-01-01; in a leap
/// second, the second that follows the last of a minute.
#[verifier::opaque]
pub open spec fn shown_time(secs: int, leap: bool) -> Seq<char> {
    let second_of_day = secs % 86400;
    let second = second_of_day % 60 + (if leap {
        1int
    } else {
        0int
    });
    date_text(date_of(secs / 86400)) + seq![' '] + two_digits(second_of_day / 3600) + seq![':']
        + two_digits(second_of_day / 60 % 60) + seq![':'] + two_digits(second)
}

/// Whether a character can stand in a date and time: a digit, a sign, a colon or a space.
pub open spec fn is_time_char(c: char) -> bool {
    is_digit(c) || c == '-' || c == '+' || c == ':' || c == ' '
}

/// Whether a text is made of such characters.
spec fn has_time_chars(text: Seq<char>) -> bool {
    forall|i: int| 0 <= i < text.len() ==> is_time_char(#[trigger] text[i])
}

proof fn lemma_joined_time_chars(a: Seq<char>, b: Seq<char>)
    requires
        has_time_chars(a),
        has_time_chars(b),
    ensures
        has_time_chars(a + b),
{
    assert forall|i: int| 0 <= i < (a + b).len() implies is_time_char(#[trigger] (a + b)[i]) by {
        if i < a.len() {
            assert((a + b)[i] == a[i]);
        } else {
            assert((a + b)[i] == b[i - a.len()]);
        }
    }
}

proof fn lemma_two_digits(n: int)
    ensures
        has_time_chars(two_digits(n)),
        two_digits(n).len() == 2,
        is_digit(two_digits(n)[0]),
        is_digit(two_digits(n)[1]),
{
    assert(0 <= n / 10 % 10 < 10);
    assert(0 <= n % 10 < 10);
}

proof fn lemma_natural_text(n: nat)
    ensures
        has_time_chars(natural_text(n)),
        natural_text(n).len() > 0,
        is_digit(natural_text(n)[0]),
    decreases n,
{
    if n >= 10 {
        lemma_natural_text(n / 10);
        assert(natural_text(n)[0] == natural_text(n / 10)[0]);
    }
}

proof fn lemma_four_digits(n: int)
    ensures
        has_time_chars(four_digits(n)),
        four_digits(n).len() > 0,
        is_digit(four_digits(n)[0]),
{
    if 0 <= n <= 9999 {
        lemma_two_digits(n / 100);
        lemma_two_digits(n % 100);
        lemma_joined_time_chars(two_digits(n / 100), two_digits(n % 100));
    } else {
        lemma_natural_text(n as nat);
    }
}

proof fn lemma_year_text(year: int)
    ensures
        has_time_chars(year_text(year)),
        year_text(year).len() > 0,
        !is_white_space(year_text(year)[0]),
{
    lemma_four_digits(year);
    lemma_four_digits(-year);
    lemma_joined_time_chars(seq!['-'], four_digits(-year));
    lemma_joined_time_chars(seq!['+'], four_digits(year));
}

/// A date and time is made of digits, signs, colons and spaces, with no white space at its
/// two ends.
pub(crate) proof fn lemma_shown_time(secs: int, leap: bool)
    ensures
        forall|i: int|
            0 <= i < shown_time(secs, leap).len() ==> is_time_char(
                #[trigger] shown_time(secs, leap)[i],
            ),
        shown_time(secs, leap).len() > 0,
        trimmed(shown_time(secs, leap)) == shown_time(secs, leap),
{
    reveal(shown_time);
    let date = date_of(secs / 86400);
    let second_of_day = secs % 86400;
    let second = second_of_day % 60 + (if leap {
        1int
    } else {
        0int
    });
    lemma_year_text(date.year);
    lemma_two_digits(date.month);
    lemma_two_digits(date.day);
    lemma_two_digits(second_of_day / 3600);
    lemma_two_digits(second_of_day / 60 % 60);
    lemma_two_digits(second);
    let text = year_text(date.year);
    lemma_joined_time_chars(text, seq!['-']);
    let text = text + seq!['-'];
    lemma_joined_time_chars(text, two_digits(date.month));
    let text = text + two_digits(date.month);
    lemma_joined_time_chars(text, seq!['-']);
    let text = text + seq!['-'];
    lemma_joined_time_chars(text, two_digits(date.day));
    let text = text + two_digits(date.day);
    lemma_joined_time_chars(text, seq![' ']);
    let text = text + seq![' '];
    lemma_joined_time_chars(text, two_digits(second_of_day / 3600));
    let text = text + two_digits(second_of_day / 3600);
    lemma_joined_time_chars(text, seq![':']);
    let text = text + seq![':'];
    lemma_joined_time_chars(text, two_digits(second_of_day / 60 % 60));
    let text = text + two_digits(second_of_day / 60 % 60);
    lemma_joined_time_chars(text, seq![':']);
    let text = text + seq![':'];
    lemma_joined_time_chars(text, two_digits(second));
    let text = text + two_digits(second);
    assert(text == shown_time(secs, leap));
    assert(text[0] == year_text(date.year)[0]);
    assert(text.last() == two_digits(second)[1]);
}

proof fn lemma_years_in_order(year: int, later: int)
    requires
        year < later,
    ensures
        days_before_year(year) + days_before_month(year, 13) <= days_before_year(later),
    decreases later - year,
{
    reveal_with_fuel(days_before_month, 14);
    if year + 1 < later {
        lemma_years_in_order(year, later - 1);
        assert(days_before_month(later - 1, 13) >= 0);
        lemma_years_in_order(later - 1, later);
    }
}

proof fn lemma_months_in_order(year: int, month: int, later: int)
    requires
        1 <= month < later,
    ensures
        days_before_month(year, month) + days_in_month(year, month) <= days_before_month(
            year,
            later,
        ),
    decreases later - month,
{
    if month + 1 < later {
        lemma_months_in_order(year, month, later - 1);
    }
}

/// No two dates of the calendar are the same number of days away from 1970-01-01, so that the
/// number of days tells the date.
pub proof fn law_days_tell_the_date(date: Date)
    requires
        date.is_valid(),
    ensures
        date_of(date.days_since_epoch()) == date,
{
    let days = date.days_since_epoch();
    let other = date_of(days);
    assert(other.is_valid() && other.days_since_epoch() == days);
    lemma_months_in_order(date.year, date.month, 13);
    lemma_months_in_order(other.year, other.month, 13);
    lemma_days_before_month_not_negative(date.year, date.month);
    lemma_days_before_month_not_negative(other.year, other.month);
    if date.year < other.year {
        lemma_years_in_order(date.year, other.year);
    } else if other.year < date.year {
        lemma_years_in_order(other.year, date.year);
    } else if date.month < other.month {
        lemma_months_in_order(date.year, date.month, other.month);
    } else if other.month < date.month {
        lemma_months_in_order(date.year, other.month, date.month);
    }
}

proof fn lemma_days_before_month_not_negative(year: int, month: int)
    ensures
        days_before_month(year, month) >= 0,
    decreases month,
{
    if month > 1 {
        lemma_days_before_month_not_negative(year, month - 1);
    }
}

/// The day after a date.
spec fn day_after(date: Date) -> Date {
    if date.day < days_in_month(date.year, date.month) {
        Date { day: date.day + 1, ..date }
    } else if date.month < 12 {
        Date { month: date.month + 1, day: 1, ..date }
    } else {
        Date { year: date.year + 1, month: 1, day: 1 }
    }
}

/// The day before a date.
spec fn day_before(date: Date) -> Date {
    if date.day > 1 {
        Date { day: date.day - 1, ..date }
    } else if date.month > 1 {
        Date {
            month: date.month - 1,
            day: days_in_month(date.year, date.month - 1),
            ..date
        }
    } else {
        Date { year: date.year - 1, month: 12, day: 31 }
    }
}

proof fn lemma_year_length(year: int)
    ensures
        days_before_year(year) + days_before_month(year, 13) == days_before_year(year + 1),
{
    reveal_with_fuel(days_before_month, 14);
}

proof fn lemma_day_after(date: Date)
    requires
        date.is_valid(),
    ensures
        day_after(date).is_valid(),
        day_after(date).days_since_epoch() == date.days_since_epoch() + 1,
{
    lemma_year_length(date.year);
}

proof fn lemma_day_before(date: Date)
    requires
        date.is_valid(),
    ensures
        day_before(date).is_valid(),
        day_before(date).days_since_epoch() == date.days_since_epoch() - 1,
{
    lemma_year_length(date.year - 1);
}

/// Every number of days leads to a date of the calendar.
pub proof fn law_every_day_has_a_date(days: int)
    ensures
        date_of(days).is_valid(),
        date_of(days).days_since_epoch() == days,
    decreases
            if days < 0 {
                -days
            } else {
                days
            },
{
    let date = if days == 0 {
        Date { year: 1970, month: 1, day: 1 }
    } else if days > 0 {
        law_every_day_has_a_date(days - 1);
        lemma_day_after(date_of(days - 1));
        day_after(date_of(days - 1))
    } else {
        law_every_day_has_a_date(days + 1);
        lemma_day_before(date_of(days + 1));
        day_before(date_of(days + 1))
    };
    assert(date.is_valid() && date.days_since_epoch() == days);
}

} // verus!
