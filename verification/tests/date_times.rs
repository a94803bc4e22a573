use jma_rap::bytes::ByteReader;
use jma_rap::datetime::CivilDateTime;
use jma_rap::error::RapReaderError;
use jma_rap::index::{
    read_date_time, DATE_DAY, DATE_HOUR, DATE_INVALID, DATE_MINUTE, DATE_MONTH, DATE_YEAR,
    TIME_INVALID,
};

fn unexpected(text: &str) -> RapReaderError {
    RapReaderError::Unexpected(text.to_string())
}

/// The error for `count` missing bytes of the field that `context` names.
fn missing(context: &str, count: usize) -> RapReaderError {
    RapReaderError::Unexpected(format!(
        "{context}ファイルから{count}バイトの読み込みに失敗しました。"
    ))
}

fn wrong_month(month: u8) -> RapReaderError {
    RapReaderError::Unexpected(format!("ファイルに記録されている月({month})が不正です。"))
}

fn stored(year: u16, month: u8, day: u8, hour: u8, minute: u8) -> Vec<u8> {
    let mut bytes = year.to_le_bytes().to_vec();
    bytes.extend_from_slice(&[month, day, hour, minute]);
    bytes
}

fn parse(bytes: &[u8]) -> Result<CivilDateTime, RapReaderError> {
    let mut reader = ByteReader::new(bytes);
    read_date_time(&mut reader)
}

fn at_minute(year: i32, month: u8, day: u8, hour: u8, minute: u8) -> CivilDateTime {
    CivilDateTime { year, month, day, hour, minute, second: 0, nanosecond: 0 }
}

#[test]
fn date_time_is_read_field_by_field() {
    let bytes = stored(1991, 1, 2, 13, 30);
    let mut reader = ByteReader::new(&bytes);
    assert_eq!(read_date_time(&mut reader), Ok(at_minute(1991, 1, 2, 13, 30)));
    assert_eq!(reader.position, 6);
}

#[test]
fn date_time_takes_the_ends_of_the_ranges() {
    assert_eq!(parse(&stored(0, 1, 1, 0, 0)), Ok(at_minute(0, 1, 1, 0, 0)));
    assert_eq!(parse(&stored(9999, 12, 31, 23, 59)), Ok(at_minute(9999, 12, 31, 23, 59)));
}

#[test]
fn date_time_knows_the_lengths_of_the_months() {
    let lengths = [31u8, 28, 31, 30, 31, 30, 31, 31, 30, 31, 30, 31];
    for (i, length) in lengths.iter().enumerate() {
        let month = i as u8 + 1;
        assert_eq!(
            parse(&stored(2019, month, *length, 0, 0)),
            Ok(at_minute(2019, month, *length, 0, 0))
        );
        assert_eq!(parse(&stored(2019, month, *length + 1, 0, 0)), Err(unexpected(DATE_INVALID)));
    }
}

#[test]
fn date_time_knows_the_leap_years() {
    assert_eq!(parse(&stored(2020, 2, 29, 0, 0)), Ok(at_minute(2020, 2, 29, 0, 0)));
    assert_eq!(parse(&stored(2000, 2, 29, 0, 0)), Ok(at_minute(2000, 2, 29, 0, 0)));
    assert_eq!(parse(&stored(0, 2, 29, 0, 0)), Ok(at_minute(0, 2, 29, 0, 0)));
    assert_eq!(parse(&stored(2019, 2, 29, 0, 0)), Err(unexpected(DATE_INVALID)));
    assert_eq!(parse(&stored(1900, 2, 29, 0, 0)), Err(unexpected(DATE_INVALID)));
    assert_eq!(parse(&stored(2100, 2, 29, 0, 0)), Err(unexpected(DATE_INVALID)));
    assert_eq!(parse(&stored(2020, 2, 30, 0, 0)), Err(unexpected(DATE_INVALID)));
}

#[test]
fn date_time_refuses_a_month_out_of_range() {
    assert_eq!(parse(&stored(1991, 0, 1, 0, 0)), Err(wrong_month(0)));
    assert_eq!(parse(&stored(1991, 13, 1, 0, 0)), Err(wrong_month(13)));
    assert_eq!(parse(&stored(1991, 255, 1, 0, 0)), Err(wrong_month(255)));
    assert_eq!(
        parse(&stored(1991, 13, 1, 0, 0)),
        Err(unexpected("ファイルに記録されている月(13)が不正です。"))
    );
}

#[test]
fn date_time_looks_at_the_month_before_it_reads_on() {
    // The month is wrong and the day is missing: the month decides.
    let bytes = [0xC7, 0x07, 13];
    let mut reader = ByteReader::new(&bytes);
    assert_eq!(read_date_time(&mut reader), Err(wrong_month(13)));
    assert_eq!(reader.position, 3);
}

#[test]
fn date_time_refuses_a_day_out_of_range() {
    assert_eq!(parse(&stored(1991, 1, 0, 0, 0)), Err(unexpected(DATE_INVALID)));
    assert_eq!(parse(&stored(1991, 1, 32, 0, 0)), Err(unexpected(DATE_INVALID)));
}

#[test]
fn date_time_refuses_a_year_out_of_range() {
    assert_eq!(parse(&stored(10000, 1, 1, 0, 0)), Err(unexpected(DATE_INVALID)));
    assert_eq!(parse(&stored(65535, 1, 1, 0, 0)), Err(unexpected(DATE_INVALID)));
}

#[test]
fn date_time_refuses_an_hour_or_minute_out_of_range() {
    assert_eq!(parse(&stored(1991, 1, 1, 24, 0)), Err(unexpected(TIME_INVALID)));
    assert_eq!(parse(&stored(1991, 1, 1, 0, 60)), Err(unexpected(TIME_INVALID)));
}

#[test]
fn date_time_looks_at_the_day_before_the_hour() {
    assert_eq!(parse(&stored(1991, 2, 30, 24, 60)), Err(unexpected(DATE_INVALID)));
}

#[test]
fn date_time_names_the_field_that_is_missing() {
    let bytes = stored(1991, 1, 2, 13, 30);
    assert_eq!(parse(&bytes[..0]), Err(missing(DATE_YEAR, 2)));
    assert_eq!(parse(&bytes[..1]), Err(missing(DATE_YEAR, 2)));
    assert_eq!(parse(&bytes[..2]), Err(missing(DATE_MONTH, 1)));
    assert_eq!(parse(&bytes[..3]), Err(missing(DATE_DAY, 1)));
    assert_eq!(parse(&bytes[..4]), Err(missing(DATE_HOUR, 1)));
    assert_eq!(parse(&bytes[..5]), Err(missing(DATE_MINUTE, 1)));
    assert_eq!(
        parse(&bytes[..1]),
        Err(unexpected(
            "観測年の読み込みに失敗しました。ファイルから2バイトの読み込みに失敗しました。"
        ))
    );
}

#[test]
fn date_time_leaves_the_reader_at_the_field_that_failed() {
    let bytes = stored(1991, 1, 2, 13, 30);
    for len in 0..6usize {
        let mut reader = ByteReader::new(&bytes[..len]);
        assert!(read_date_time(&mut reader).is_err());
        let field = if len < 2 { 0 } else { len as u64 };
        assert_eq!(reader.position, field);
    }
    for refused in [stored(1991, 2, 30, 0, 0), stored(1991, 1, 1, 24, 0)] {
        let mut reader = ByteReader::new(&refused);
        assert!(read_date_time(&mut reader).is_err());
        assert_eq!(reader.position, 6);
    }
}

#[test]
fn first_moment_of_the_calendar() {
    let first = CivilDateTime::min();
    assert_eq!(first, at_minute(-9999, 1, 1, 0, 0));
}

#[test]
fn date_time_exists_exactly_where_the_calendar_has_it() {
    let leap = |year: u32| year % 4 == 0 && (year % 100 != 0 || year % 400 == 0);
    let length = |year: u32, month: u8| match month {
        2 => {
            if leap(year) {
                29
            } else {
                28
            }
        }
        4 | 6 | 9 | 11 => 30,
        _ => 31,
    };
    let years = (0..=420u32).chain(1880..=2120).chain(9980..=10020).chain(65500..=65535);
    for year in years {
        for month in 0..=14u8 {
            for day in 0..=33u8 {
                let read = parse(&stored(year as u16, month, day, 12, 30));
                if !(1..=12).contains(&month) {
                    assert_eq!(read, Err(wrong_month(month)));
                } else if year <= 9999 && 1 <= day && day <= length(year, month) {
                    assert_eq!(read, Ok(at_minute(year as i32, month, day, 12, 30)));
                } else {
                    assert_eq!(read, Err(unexpected(DATE_INVALID)));
                }
            }
        }
    }
}

#[test]
fn time_of_day_exists_exactly_below_24_hours_and_60_minutes() {
    for hour in 0..=255u8 {
        for minute in 0..=255u8 {
            let read = parse(&stored(1991, 6, 15, hour, minute));
            if hour < 24 && minute < 60 {
                assert_eq!(read, Ok(at_minute(1991, 6, 15, hour, minute)));
            } else {
                assert_eq!(read, Err(unexpected(TIME_INVALID)));
            }
        }
    }
}
