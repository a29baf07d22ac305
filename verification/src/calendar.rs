//! Calendar dates: which day and which week a message belongs to, and the text that announces
//! the day above it.
use crate::clock::{is_clock_reading, is_zone_offset};
use crate::timestamp::{TimeStamp, LATEST_MILLIS};
use chrono::{DateTime, Datelike, FixedOffset, Local};
use vstd::prelude::*;

verus! {

/// The first point in time that chrono represents, in milliseconds since the Unix epoch: the
/// first millisecond of the year -262143.
pub const EARLIEST_MILLIS: i64 = -8_334_601_228_800_000;

/// The number of the day 1970-01-01, as [`day_number`] counts.
pub const UNIX_EPOCH_DAY: u32 = 719_163;

pub const MILLIS_PER_DAY: u64 = 86_400_000;

/// A date, with the ISO 8601 week that it falls in.
#[derive(Debug, Clone, Copy, PartialEq, Eq, Structural)]
pub struct LocalDate {
    pub year: i32,
    /// From 1 to 12.
    pub month: u32,
    /// The day of the month, from 1.
    pub day: u32,
    /// The year that the week is counted in.
    pub iso_year: i32,
    /// The number of the week, from 1.
    pub iso_week: u32,
}

/// A point in time, and the date that it has in a time zone.
#[derive(Debug, Clone, Copy, PartialEq, Eq, Structural)]
pub struct LocalTime {
    /// Milliseconds since the Unix epoch.
    pub millis: i64,
    /// How far the time zone is ahead of UTC, in seconds.
    pub offset: i32,
    pub date: LocalDate,
}

pub open spec fn is_leap_year(year: int) -> bool {
    year % 4 == 0 && (year % 100 != 0 || year % 400 == 0)
}

pub open spec fn days_in_month(year: int, month: int) -> int {
    if month == 2 {
        if is_leap_year(year) { 29 } else { 28 }
    } else if month == 4 || month == 6 || month == 9 || month == 11 {
        30
    } else {
        31
    }
}

/// The days of the year before the first of the month.
pub open spec fn days_before_month(year: int, month: int) -> int
    decreases month,
{
    if month <= 1 {
        0
    } else {
        days_before_month(year, month - 1) + days_in_month(year, month - 1)
    }
}

/// The days from 0001-01-01 to the first day of the year.
pub open spec fn days_before_year(year: int) -> int {
    let past = year - 1;
    365 * past + past / 4 - past / 100 + past / 400
}

/// The dates that exist.
pub open spec fn valid_date(year: int, month: int, day: int) -> bool {
    &&& 1 <= month <= 12
    &&& 1 <= day <= days_in_month(year, month)
}

/// Days counted one by one; 0001-01-01 is day 1.
pub open spec fn day_number(year: int, month: int, day: int) -> int {
    days_before_year(year) + days_before_month(year, month) + day
}

/// The day of the week of a day, 0 for Monday: day 1 was one.
pub open spec fn weekday(number: int) -> int {
    (number - 1) % 7
}

/// Weeks counted one by one, from Monday to Sunday.
pub open spec fn week_number(number: int) -> int {
    (number - 1) / 7
}

/// Whether ISO 8601 puts a day in this week of this year: a week belongs to the year that its
/// Thursday falls in, and week 1 is the one with the first Thursday of the year.
pub open spec fn in_iso_week(number: int, iso_year: int, iso_week: int) -> bool {
    let thursday = 7 * week_number(number) + 4;
    &&& days_before_year(iso_year) < thursday <= days_before_year(iso_year + 1)
    &&& iso_week == (thursday - days_before_year(iso_year) - 1) / 7 + 1
}

impl LocalDate {
    /// The number of the day.
    pub open spec fn number(self) -> int {
        day_number(self.year as int, self.month as int, self.day as int)
    }

    /// The same day of the same month and year.
    pub open spec fn same_day(self, other: LocalDate) -> bool {
        self.year == other.year && self.month == other.month && self.day == other.day
    }

    /// The date exists, and the week is the one it falls in.
    pub open spec fn wf(self) -> bool {
        &&& valid_date(self.year as int, self.month as int, self.day as int)
        &&& in_iso_week(self.number(), self.iso_year as int, self.iso_week as int)
    }
}

/// The points in time that chrono represents.
pub open spec fn in_range(millis: int) -> bool {
    EARLIEST_MILLIS <= millis <= LATEST_MILLIS
}

/// The offsets of time zones, in seconds: less than a day.
pub open spec fn is_offset(offset: int) -> bool {
    -86_400 < offset < 86_400
}

/// The number of the day that it is at a point in time, in a time zone with this offset.
pub open spec fn local_day(millis: int, offset: int) -> int {
    UNIX_EPOCH_DAY + (millis + 1000 * offset) / MILLIS_PER_DAY as int
}

impl LocalTime {
    /// The point in time and the offset are possible, and the date is the one they give.
    pub open spec fn wf(self) -> bool {
        &&& in_range(self.millis as int)
        &&& is_offset(self.offset as int)
        &&& self.date.wf()
        &&& self.date.number() == local_day(self.millis as int, self.offset as int)
    }

    /// This point in time, in some time zone.
    pub open spec fn is_of(self, time: TimeStamp) -> bool {
        self.wf() && self.millis == time.0
    }

    /// The offset is that of the local time zone.
    pub open spec fn is_local(self) -> bool {
        is_zone_offset(self.millis as int, self.offset as int)
    }
}

/// A point in time that the clock can give, in some time zone.
pub open spec fn is_reading(now: LocalTime) -> bool {
    now.wf() && now.millis >= 0
}

/// A point in time that the clock gave, in the local time zone.
pub open spec fn is_clock_time(now: LocalTime) -> bool {
    is_reading(now) && is_clock_reading(now.millis as int) && now.is_local()
}

/// The English name of a day of the week, 0 for Monday.
pub open spec fn weekday_name(weekday: int) -> Seq<char> {
    if weekday == 0 {
        "Monday"@
    } else if weekday == 1 {
        "Tuesday"@
    } else if weekday == 2 {
        "Wednesday"@
    } else if weekday == 3 {
        "Thursday"@
    } else if weekday == 4 {
        "Friday"@
    } else if weekday == 5 {
        "Saturday"@
    } else {
        "Sunday"@
    }
}

/// The three letters of a month.
pub open spec fn month_name(month: int) -> Seq<char> {
    if month == 1 {
        "Jan"@
    } else if month == 2 {
        "Feb"@
    } else if month == 3 {
        "Mar"@
    } else if month == 4 {
        "Apr"@
    } else if month == 5 {
        "May"@
    } else if month == 6 {
        "Jun"@
    } else if month == 7 {
        "Jul"@
    } else if month == 8 {
        "Aug"@
    } else if month == 9 {
        "Sep"@
    } else if month == 10 {
        "Oct"@
    } else if month == 11 {
        "Nov"@
    } else {
        "Dec"@
    }
}

pub open spec fn digit(value: int) -> char {
    ('0' as int + value) as char
}

/// A day of the month, padded to two characters with a space.
pub open spec fn padded_day(day: int) -> Seq<char> {
    if day < 10 {
        seq![' ', digit(day)]
    } else {
        seq![digit(day / 10), digit(day % 10)]
    }
}

/// A number of four digits, the first of which may be 0.
pub open spec fn four_digits(value: int) -> Seq<char> {
    seq![digit(value / 1000), digit(value / 100 % 10), digit(value / 10 % 10), digit(value % 10)]
}

/// A number that is not negative, in decimal.
pub open spec fn decimal(value: int) -> Seq<char>
    decreases value,
{
    if value < 10 {
        seq![digit(value)]
    } else {
        decimal(value / 10).push(digit(value % 10))
    }
}

/// A year, in four digits at least; outside of 0 to 9999 with its sign.
pub open spec fn year_text(year: int) -> Seq<char> {
    let magnitude = if year < 0 { -year } else { year };
    let digits = if magnitude <= 9999 { four_digits(magnitude) } else { decimal(magnitude) };
    if 0 <= year <= 9999 {
        digits
    } else if year < 0 {
        "-"@ + digits
    } else {
        "+"@ + digits
    }
}

/// The name of the day, as in "Friday".
pub open spec fn name_of_day(date: LocalDate) -> Seq<char> {
    weekday_name(weekday(date.number()))
}

/// The name of the day, the month and the day of the month, as in "Friday, Jul  8".
pub open spec fn day_and_month(date: LocalDate) -> Seq<char> {
    name_of_day(date) + ", "@ + month_name(date.month as int) + " "@ + padded_day(date.day as int)
}

/// All of that and the year, as in "Friday, Jul  8, 2022".
pub open spec fn day_month_and_year(date: LocalDate) -> Seq<char> {
    day_and_month(date) + ", "@ + year_text(date.year as int)
}

/// The strftime format that announces a day to somebody who reads it today.
///
/// A day of an earlier week gets its name, month and day of the month, and the year where that
/// is another one. From this week on it is "Today" for today, and the name of the day for the
/// other days.
pub open spec fn separator_format_of(date: LocalDate, today: LocalDate) -> Seq<char> {
    if week_number(date.number()) < week_number(today.number()) {
        if date.year != today.year {
            "%A, %b %e, %Y"@
        } else {
            "%A, %b %e"@
        }
    } else if date.same_day(today) {
        "Today"@
    } else {
        "%A"@
    }
}

/// The formats in use.
pub open spec fn is_separator_format(format: Seq<char>) -> bool {
    ||| format == "%A, %b %e, %Y"@
    ||| format == "%A, %b %e"@
    ||| format == "Today"@
    ||| format == "%A"@
}

/// The text of a date in one of the formats in use.
pub open spec fn date_text(date: LocalDate, format: Seq<char>) -> Seq<char>
    recommends
        is_separator_format(format),
{
    if format == "%A, %b %e, %Y"@ {
        day_month_and_year(date)
    } else if format == "%A, %b %e"@ {
        day_and_month(date)
    } else if format == "Today"@ {
        "Today"@
    } else {
        name_of_day(date)
    }
}

/// The text that announces a day to somebody who reads it today.
pub open spec fn label_of(date: LocalDate, today: LocalDate) -> Seq<char> {
    if week_number(date.number()) < week_number(today.number()) {
        if date.year != today.year {
            day_month_and_year(date)
        } else {
            day_and_month(date)
        }
    } else if date.same_day(today) {
        "Today"@
    } else {
        name_of_day(date)
    }
}

/// The offset of the local time zone at a point in time: `DateTime::from_timestamp_millis`,
/// brought to `Local` by `DateTime::with_timezone`, and `FixedOffset::local_minus_utc`.
///
/// Trusted: it is less than a day. What it is depends on the time zone of the machine and is left
/// open. chrono panics where the time zone of the machine has no such offset.
#[verifier::external_body]
fn chrono_local_offset(millis: i64) -> (offset: i32)
    requires
        in_range(millis as int),
    ensures
        is_offset(offset as int),
        is_zone_offset(millis as int, offset as int),
{
    DateTime::from_timestamp_millis(millis).unwrap().with_timezone(&Local).offset().local_minus_utc()
}

/// The date at a point in time in a time zone: `DateTime::from_timestamp_millis`, brought to
/// `FixedOffset::east_opt` by `DateTime::with_timezone` and read through `Datelike`.
///
/// Trusted: the date is that of the Gregorian calendar for the day that it is there, and its week
/// is the one of ISO 8601. That holds of the days just outside of chrono's range too, which an
/// offset can lead to.
#[verifier::external_body]
fn chrono_date(millis: i64, offset: i32) -> (date: LocalDate)
    requires
        in_range(millis as int),
        is_offset(offset as int),
    ensures
        date.wf(),
        date.number() == local_day(millis as int, offset as int),
{
    let zone = FixedOffset::east_opt(offset).unwrap();
    let local = DateTime::from_timestamp_millis(millis).unwrap().with_timezone(&zone);
    LocalDate {
        year: local.year(),
        month: local.month(),
        day: local.day(),
        iso_year: local.iso_week().year(),
        iso_week: local.iso_week().week(),
    }
}

/// The text of a date in one of the formats in use: `DateTime::from_timestamp_millis`, brought to
/// `FixedOffset::east_opt` by `DateTime::with_timezone`, and `DateTime::format`.
///
/// Trusted: "%A" writes the English name of the day of the week, "%b" the three letters of the
/// month, "%e" the day of the month padded with a space, "%Y" the year in four digits (with a
/// sign outside of 0 to 9999), and everything else stands for itself.
#[verifier::external_body]
fn chrono_format(local: &LocalTime, format: &str) -> (text: String)
    requires
        local.wf(),
        is_separator_format(format@),
    ensures
        text@ == date_text(local.date, format@),
{
    let zone = FixedOffset::east_opt(local.offset).unwrap();
    let time = DateTime::from_timestamp_millis(local.millis).unwrap().with_timezone(&zone);
    time.format(format).to_string()
}

impl LocalTime {
    /// A point in time in a time zone with this offset. There is none for a point in time that is
    /// too far away, and for an offset of a day or more.
    pub fn at(millis: i64, offset: i32) -> (local: Option<LocalTime>)
        ensures
            local is Some <==> in_range(millis as int) && is_offset(offset as int),
            local matches Some(local) ==> local.wf() && local.millis == millis && local.offset
                == offset,
    {
        if EARLIEST_MILLIS <= millis && millis <= LATEST_MILLIS as i64 && -86_400 < offset
            && offset < 86_400 {
            Some(LocalTime { millis, offset, date: chrono_date(millis, offset) })
        } else {
            None
        }
    }

    /// A point in time in the local time zone. There is none for a point in time that is too far
    /// away.
    pub fn of(time: TimeStamp) -> (local: Option<LocalTime>)
        ensures
            local is Some <==> time.0 <= LATEST_MILLIS,
            local matches Some(local) ==> local.is_of(time) && local.is_local(),
    {
        if time.0 <= LATEST_MILLIS {
            let millis: i64 = time.0 as i64;
            LocalTime::at(millis, chrono_local_offset(millis))
        } else {
            None
        }
    }

    /// The time by the system clock, in the local time zone.
    pub fn now() -> (now: LocalTime)
        ensures
            is_clock_time(now),
    {
        let millis: i64 = TimeStamp::now().0 as i64;
        let offset: i32 = chrono_local_offset(millis);
        LocalTime { millis, offset, date: chrono_date(millis, offset) }
    }

    /// The first moment of 1970, in UTC.
    pub fn epoch() -> (epoch: LocalTime)
        ensures
            epoch.wf(),
            epoch.millis == 0,
            epoch.offset == 0,
    {
        assert(days_before_month(1970, 1) == 0);
        LocalTime {
            millis: 0,
            offset: 0,
            date: LocalDate { year: 1970, month: 1, day: 1, iso_year: 1970, iso_week: 1 },
        }
    }
}

impl LocalDate {
    /// Whether this is the same day as another one.
    pub fn is_same_day_as(&self, other: &LocalDate) -> (same: bool)
        ensures
            same == self.same_day(*other),
    {
        self.year == other.year && self.month == other.month && self.day == other.day
    }

    /// Whether the week of this date is before the week of another one.
    pub fn in_earlier_week_than(&self, other: &LocalDate) -> (earlier: bool)
        requires
            self.wf(),
            other.wf(),
        ensures
            earlier <==> week_number(self.number()) < week_number(other.number()),
    {
        proof {
            lemma_iso_weeks_are_ordered(*self, *other);
        }
        self.iso_year < other.iso_year || (self.iso_year == other.iso_year && self.iso_week
            < other.iso_week)
    }
}

/// The strftime format that announces a day to somebody who reads it today.
pub fn separator_format(date: &LocalDate, today: &LocalDate) -> (format: &'static str)
    requires
        date.wf(),
        today.wf(),
    ensures
        format@ == separator_format_of(*date, *today),
{
    if date.in_earlier_week_than(today) {
        if date.year != today.year {
            // a week of another year, so show the day name, month name, date and year
            "%A, %b %e, %Y"
        } else {
            // before the beginning of this week, so show the day name, month name and date
            "%A, %b %e"
        }
    } else if date.is_same_day_as(today) {
        "Today"
    } else {
        // same week, so just show the day name
        "%A"
    }
}

proof fn lemma_formats_differ()
    ensures
        "%A, %b %e, %Y"@ != "%A, %b %e"@,
        "%A, %b %e, %Y"@ != "Today"@,
        "%A, %b %e, %Y"@ != "%A"@,
        "%A, %b %e"@ != "Today"@,
        "%A, %b %e"@ != "%A"@,
        "Today"@ != "%A"@,
{
    reveal_strlit("%A, %b %e, %Y");
    reveal_strlit("%A, %b %e");
    reveal_strlit("Today");
    reveal_strlit("%A");
    assert("%A, %b %e, %Y"@.len() == 13);
    assert("%A, %b %e"@.len() == 9);
    assert("Today"@.len() == 5);
    assert("%A"@.len() == 2);
}

/// The text that announces the day of a point in time to somebody who reads it today.
pub fn day_label(local: &LocalTime, today: &LocalDate) -> (label: String)
    requires
        local.wf(),
        today.wf(),
    ensures
        label@ == label_of(local.date, *today),
{
    proof {
        lemma_formats_differ();
    }
    chrono_format(local, separator_format(&local.date, today))
}

proof fn lemma_year_length(year: int)
    ensures
        days_before_year(year + 1) - days_before_year(year) == if is_leap_year(year) {
            366int
        } else {
            365int
        },
{
}

proof fn lemma_years_are_ordered(first: int, second: int)
    requires
        first <= second,
    ensures
        days_before_year(first) <= days_before_year(second),
    decreases second - first,
{
    if first < second {
        lemma_year_length(first);
        lemma_years_are_ordered(first + 1, second);
    }
}

/// The days of a month end before the year does.
proof fn lemma_month_within_year(year: int, month: int)
    requires
        1 <= month <= 12,
    ensures
        0 <= days_before_month(year, month),
        days_before_month(year, month) + days_in_month(year, month) <= days_before_year(year + 1)
            - days_before_year(year),
{
    lemma_year_length(year);
    reveal_with_fuel(days_before_month, 13);
}

/// Two dates that fall in ISO weeks are in the order of their weeks, year before week.
pub proof fn lemma_iso_weeks_are_ordered(first: LocalDate, second: LocalDate)
    requires
        first.wf(),
        second.wf(),
    ensures
        (first.iso_year < second.iso_year || (first.iso_year == second.iso_year && first.iso_week
            < second.iso_week)) <==> week_number(first.number()) < week_number(second.number()),
{
    if first.iso_year < second.iso_year {
        lemma_years_are_ordered(first.iso_year + 1, second.iso_year as int);
    } else if second.iso_year < first.iso_year {
        lemma_years_are_ordered(second.iso_year + 1, first.iso_year as int);
    }
}

/// The later of two months starts after the earlier one has ended.
proof fn lemma_months_are_apart(year: int, month: int, later_year: int, later_month: int)
    requires
        1 <= month <= 12,
        1 <= later_month <= 12,
        year < later_year || (year == later_year && month < later_month),
    ensures
        days_before_year(year) + days_before_month(year, month) + days_in_month(year, month)
            <= days_before_year(later_year) + days_before_month(later_year, later_month),
{
    lemma_month_within_year(year, month);
    lemma_month_within_year(later_year, later_month);
    if year < later_year {
        lemma_years_are_ordered(year + 1, later_year);
    } else {
        reveal_with_fuel(days_before_month, 13);
    }
}

/// Dates are numbered in the order of year, month and day.
proof fn lemma_dates_are_ordered(first: LocalDate, second: LocalDate)
    requires
        first.wf(),
        second.wf(),
        first.year < second.year || (first.year == second.year && first.month < second.month),
    ensures
        first.number() < second.number(),
{
    lemma_months_are_apart(
        first.year as int,
        first.month as int,
        second.year as int,
        second.month as int,
    );
}

/// Two dates are the same day exactly where they have the same number.
pub proof fn law_same_day(first: LocalDate, second: LocalDate)
    requires
        first.wf(),
        second.wf(),
    ensures
        first.same_day(second) <==> first.number() == second.number(),
{
    if first.year < second.year || (first.year == second.year && first.month < second.month) {
        lemma_dates_are_ordered(first, second);
    } else if second.year < first.year || second.month < first.month {
        lemma_dates_are_ordered(second, first);
    }
}

/// No name of a day is "Today".
proof fn lemma_names_are_not_today(weekday: int)
    ensures
        weekday_name(weekday).len() > "Today"@.len(),
{
    reveal_strlit("Today");
    reveal_strlit("Monday");
    reveal_strlit("Tuesday");
    reveal_strlit("Wednesday");
    reveal_strlit("Thursday");
    reveal_strlit("Friday");
    reveal_strlit("Saturday");
    reveal_strlit("Sunday");
}

/// "Today" announces today, and no other day.
pub proof fn law_only_today_is_today(date: LocalDate, today: LocalDate)
    requires
        date.wf(),
        today.wf(),
    ensures
        label_of(date, today) == "Today"@ <==> date.number() == today.number(),
{
    law_same_day(date, today);
    lemma_names_are_not_today(weekday(date.number()));
    assert(day_and_month(date).len() >= name_of_day(date).len());
    assert(day_month_and_year(date).len() >= day_and_month(date).len());
}

/// What announces a day: "Today" for today, the name of the day for the other days of this week
/// and for the days to come, with month and date for the earlier weeks of this year, and with the
/// year as well for the earlier weeks of the years before.
pub proof fn law_day_labels(date: LocalDate, today: LocalDate)
    requires
        date.wf(),
        today.wf(),
    ensures
        date.number() == today.number() ==> label_of(date, today) == "Today"@,
        date.number() != today.number() && week_number(date.number()) >= week_number(
            today.number(),
        ) ==> label_of(date, today) == name_of_day(date),
        week_number(date.number()) < week_number(today.number()) && date.year == today.year
            ==> label_of(date, today) == day_and_month(date),
        week_number(date.number()) < week_number(today.number()) && date.year != today.year
            ==> date.year < today.year && label_of(date, today) == day_month_and_year(date),
{
    if today.year < date.year || (today.year == date.year && today.month < date.month) {
        lemma_dates_are_ordered(today, date);
    } else if date.year < today.year || date.month < today.month {
        lemma_dates_are_ordered(date, today);
    }
}

} // verus!
