//! Civil dates and times as the data index records them.
use vstd::prelude::*;

verus! {

/// A date of the proleptic Gregorian calendar with a time of day, without
/// any offset from UTC.
///
/// The fields are plain numbers and any combination can be written down;
/// [`CivilDateTime::is_valid`] says which of them name a moment that exists.
#[derive(Debug, Clone, Copy, PartialEq, Eq, Structural, Hash)]
pub struct CivilDateTime {
    pub year: i32,
    /// 1 for January to 12 for December.
    pub month: u8,
    pub day: u8,
    pub hour: u8,
    pub minute: u8,
    pub second: u8,
    pub nanosecond: u32,
}

/// The first year a date can have.
pub const MIN_YEAR: i32 = -9999;

/// The last year a date can have.
pub const MAX_YEAR: i32 = 9999;

/// Whether `year` has a 29th of February.
pub open spec fn is_leap_year(year: int) -> bool {
    year % 4 == 0 && (year % 100 != 0 || year % 400 == 0)
}

/// The number of days of `month` in `year`, for a month between 1 and 12.
pub open spec fn days_in_month(year: int, month: int) -> int {
    if month == 2 {
        if is_leap_year(year) {
            29
        } else {
            28
        }
    } else if month == 4 || month == 6 || month == 9 || month == 11 {
        30
    } else {
        31
    }
}

/// Whether the calendar has the given day.
pub open spec fn is_calendar_date(year: int, month: int, day: int) -> bool {
    &&& MIN_YEAR <= year <= MAX_YEAR
    &&& 1 <= month <= 12
    &&& 1 <= day <= days_in_month(year, month)
}

/// Whether a day has the given time, counted in hours, minutes and seconds.
pub open spec fn is_clock_time(hour: int, minute: int, second: int) -> bool {
    0 <= hour < 24 && 0 <= minute < 60 && 0 <= second < 60
}

/// Whether the number names a month.
///
/// Trusted: this is `time::Month::try_from` for `u8`, which accepts exactly
/// the numbers 1 to 12.
#[verifier::external_body]
pub(crate) fn month_exists(month: u8) -> (exists: bool)
    ensures
        exists == (1 <= month <= 12),
{
    time::Month::try_from(month).is_ok()
}

/// Whether the calendar has the given day.
///
/// Trusted: this is `time::Date::from_calendar_date`, which accepts a year
/// between -9999 and 9999 (the crate is built without its `large-dates`
/// feature) and a day between 1 and the length of the month in that year.
/// The month is handed over as a `time::Month`, made by `time::Month::try_from`.
#[verifier::external_body]
pub(crate) fn calendar_date_exists(year: i32, month: u8, day: u8) -> (exists: bool)
    ensures
        exists == is_calendar_date(year as int, month as int, day as int),
{
    match time::Month::try_from(month) {
        Ok(month) => time::Date::from_calendar_date(year, month, day).is_ok(),
        Err(_) => false,
    }
}

/// Whether a day has the given time.
///
/// Trusted: this is `time::Time::from_hms`, which accepts an hour below 24
/// and a minute and a second below 60.
#[verifier::external_body]
pub(crate) fn clock_time_exists(hour: u8, minute: u8, second: u8) -> (exists: bool)
    ensures
        exists == is_clock_time(hour as int, minute as int, second as int),
{
    time::Time::from_hms(hour, minute, second).is_ok()
}

/// The text of the moment with the given fields in the form
/// `[year]-[month]-[day] [hour]:[minute]:[second]`, as the `time` crate
/// writes it; nothing where it writes none.
pub uninterp spec fn formatted_date_time(
    year: int,
    month: int,
    day: int,
    hour: int,
    minute: int,
    second: int,
    nanosecond: int,
) -> Option<Seq<char>>;

/// Writes a moment as year, month and day, then hour, minute and second.
///
/// Trusted: this is `time::PrimitiveDateTime::format` with the description
/// `[year]-[month]-[day] [hour]:[minute]:[second]`, read by
/// `time::format_description::parse_borrowed`. The moment is handed over as
/// a `time::PrimitiveDateTime`, made from its fields by `time`'s own checked
/// constructors. All that is claimed is that the same fields give the same
/// text, or none: there is no text where `time` refuses the fields or the
/// formatting.
#[verifier::external_body]
pub(crate) fn format_date_time(moment: CivilDateTime) -> (text: Option<String>)
    ensures
        match text {
            Some(t) => formatted_date_time(
                moment.year as int,
                moment.month as int,
                moment.day as int,
                moment.hour as int,
                moment.minute as int,
                moment.second as int,
                moment.nanosecond as int,
            ) == Some(t@),
            None => formatted_date_time(
                moment.year as int,
                moment.month as int,
                moment.day as int,
                moment.hour as int,
                moment.minute as int,
                moment.second as int,
                moment.nanosecond as int,
            ) is None,
        },
{
    let month = time::Month::try_from(moment.month).ok()?;
    let date = time::Date::from_calendar_date(moment.year, month, moment.day).ok()?;
    let time =
        time::Time::from_hms_nano(moment.hour, moment.minute, moment.second, moment.nanosecond)
            .ok()?;
    let form = "[year]-[month]-[day] [hour]:[minute]:[second]";
    let items = time::format_description::parse_borrowed::<1>(form).ok()?;
    time::PrimitiveDateTime::new(date, time).format(&items).ok()
}

impl CivilDateTime {
    /// The text of the moment as year, month and day, then hour, minute and
    /// second; nothing where the moment has no such text.
    pub open spec fn shown(&self) -> Option<Seq<char>> {
        formatted_date_time(
            self.year as int,
            self.month as int,
            self.day as int,
            self.hour as int,
            self.minute as int,
            self.second as int,
            self.nanosecond as int,
        )
    }

    /// Whether the fields name a moment that exists.
    pub open spec fn is_valid(&self) -> bool {
        &&& is_calendar_date(self.year as int, self.month as int, self.day as int)
        &&& is_clock_time(self.hour as int, self.minute as int, self.second as int)
        &&& self.nanosecond < 1_000_000_000
    }

    /// The first moment of the calendar: midnight on the first of January of
    /// the year -9999.
    pub open spec fn spec_min() -> CivilDateTime {
        CivilDateTime {
            year: MIN_YEAR,
            month: 1,
            day: 1,
            hour: 0,
            minute: 0,
            second: 0,
            nanosecond: 0,
        }
    }

    /// The first moment of the calendar.
    #[verifier::when_used_as_spec(spec_min)]
    pub fn min() -> (first: CivilDateTime)
        ensures
            first == Self::spec_min(),
            first.is_valid(),
    {
        CivilDateTime {
            year: MIN_YEAR,
            month: 1,
            day: 1,
            hour: 0,
            minute: 0,
            second: 0,
            nanosecond: 0,
        }
    }
}

} // verus!
