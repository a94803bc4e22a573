//! The data index: one entry per observation time, with the place of its
//! compressed grid in the file and what the data record says beside the grid.
use vstd::prelude::*;
use vstd::string::StringExecFns;

use crate::bytes::{
    available,
    short_read,
    read_u16,
    read_u32,
    read_u64,
    read_u8,
    u16_at,
    u32_at,
    u64_at,
    ByteReader,
    SEEK_OUT_OF_RANGE,
};
use crate::datetime::{
    calendar_date_exists,
    clock_time_exists,
    is_calendar_date,
    is_clock_time,
    month_exists,
    CivilDateTime,
};
use crate::error::{unexpected, within, RapReaderError, RapReaderErrorView};
use crate::text::{decimal, push_decimal};

verus! {

// What the texts of the errors of the data index start with, one for each
// field that may fail; what went wrong with the field follows.
pub const DATE_YEAR: &'static str = "観測年の読み込みに失敗しました。";

pub const DATE_MONTH: &'static str = "観測月の読み込みに失敗しました。";

pub const DATE_DAY: &'static str = "観測日の読み込みに失敗しました。";

pub const DATE_HOUR: &'static str = "観測時の読み込みに失敗しました。";

pub const DATE_MINUTE: &'static str = "観測分の読み込みに失敗しました。";

/// What the text of the error for a month out of range starts with, in
/// front of the month that was found.
pub const DATE_MONTH_INVALID_HEAD: &'static str = "ファイルに記録されている月(";

/// What the text of the error for a month out of range ends with.
pub const DATE_MONTH_INVALID_TAIL: &'static str = ")が不正です。";

pub const DATE_INVALID: &'static str =
    "ファイルに記録されている年月日から、日付を構築できませんでした。";

pub const TIME_INVALID: &'static str =
    "ファイルに記録されている時分から、時間を構築できませんでした。";

pub const INDEX_COUNT: &'static str = "データ部へのインデックスのデータ数の読み込みに失敗しました。";

pub const INDEX_ELEMENT: &'static str = "データ部へのインデックスの要素の読み込みに失敗しました。";

pub const INDEX_RESERVED: &'static str = "データ部へのインデックスの予備のシークに失敗しました。";

pub const INDEX_START: &'static str =
    "データ部へのインデックスのデータの開始位置の読み込みに失敗しました。";

pub const RECORD_SIZE: &'static str = "データ部の圧縮後の大きさの読み込みに失敗しました。";

pub const RECORD_STATUS: &'static str = "データ部のレーダー運用状況の読み込みに失敗しました。";

pub const RECORD_STATIONS: &'static str =
    "データ部の解析に使用したアメダスの総数の読み込みに失敗しました。";

/// The number of bytes of an observation time in the index.
pub const DATE_TIME_LEN: u64 = 6;

/// The number of bytes of an index entry.
pub const ENTRY_LEN: u64 = 20;

/// How many observations a file holds for its day.
#[derive(Debug, Clone, Copy, PartialEq, Eq, Structural)]
pub enum ObservationTimes {
    /// One observation on every full hour.
    Times24,
    /// One observation every 30 minutes.
    Times48,
}

impl ObservationTimes {
    /// The number of observations.
    pub open spec fn spec_count(self) -> u32 {
        match self {
            ObservationTimes::Times24 => 24,
            ObservationTimes::Times48 => 48,
        }
    }

    /// The number of observations.
    #[verifier::when_used_as_spec(spec_count)]
    pub fn count(self) -> (count: u32)
        ensures
            count == self.spec_count(),
    {
        match self {
            ObservationTimes::Times24 => 24,
            ObservationTimes::Times48 => 48,
        }
    }

    /// The kind of file with `value` observations, which must be 24 or 48.
    pub open spec fn spec_try_from(value: u32) -> Result<ObservationTimes, RapReaderErrorView> {
        if value == 24 {
            Ok(ObservationTimes::Times24)
        } else if value == 48 {
            Ok(ObservationTimes::Times48)
        } else {
            Err(RapReaderErrorView::ObservationIntervalUnsupported(value))
        }
    }
}

impl TryFrom<u32> for ObservationTimes {
    type Error = RapReaderError;

    /// The kind of file with `value` observations, which must be 24 or 48.
    fn try_from(value: u32) -> (res: Result<ObservationTimes, RapReaderError>)
        ensures
            match res {
                Ok(times) => Self::spec_try_from(value) == Ok::<_, RapReaderErrorView>(times),
                Err(e) => Self::spec_try_from(value) == Err::<ObservationTimes, _>(e@),
            },
    {
        if value == 24 {
            Ok(ObservationTimes::Times24)
        } else if value == 48 {
            Ok(ObservationTimes::Times48)
        } else {
            Err(RapReaderError::ObservationIntervalUnsupported(value))
        }
    }
}

impl vstd::std_specs::convert::TryFromSpecImpl<u32> for ObservationTimes {
    open spec fn obeys_try_from_spec() -> bool {
        true
    }

    open spec fn try_from_spec(value: u32) -> Result<ObservationTimes, RapReaderError> {
        if value == 24 {
            Ok(ObservationTimes::Times24)
        } else if value == 48 {
            Ok(ObservationTimes::Times48)
        } else {
            Err(RapReaderError::ObservationIntervalUnsupported(value))
        }
    }
}

/// What the file records of one observation.
#[derive(Debug, Clone, Copy, PartialEq, Eq, Structural)]
pub struct DataProperty {
    /// The time of the observation. The hour from 0 to 1 o'clock is filed
    /// under 1 o'clock, so the times of a day run from 1 o'clock to midnight.
    pub observation_date_time: CivilDateTime,
    /// The code of the observed element.
    pub observation_element: u16,
    /// Where the data record starts, counted in bytes from the start of the file.
    pub data_start_position: u32,
    /// The number of bytes of the compressed grid.
    pub compressed_data_size: u32,
    /// One bit per radar site that was in operation.
    pub radar_operation_statuses: u64,
    /// The number of rain gauge stations that went into the analysis.
    pub number_of_amedas: u32,
}

impl Default for DataProperty {
    fn default() -> (property: DataProperty)
        ensures
            property.observation_date_time == CivilDateTime::spec_min(),
            property.observation_element == 0,
            property.data_start_position == 0,
            property.compressed_data_size == 0,
            property.radar_operation_statuses == 0,
            property.number_of_amedas == 0,
    {
        DataProperty {
            observation_date_time: CivilDateTime::min(),
            observation_element: 0,
            data_start_position: 0,
            compressed_data_size: 0,
            radar_operation_statuses: 0,
            number_of_amedas: 0,
        }
    }
}

/// The data index of a file.
#[derive(Debug, Clone, PartialEq, Eq)]
pub struct DataIndexPart {
    /// How many observations the file holds.
    pub number_of_data: ObservationTimes,
    /// The entries, in the order of the file.
    pub data_properties: Vec<DataProperty>,
}

/// A [`DataIndexPart`] with its entries as a sequence.
pub struct DataIndexPartView {
    pub number_of_data: ObservationTimes,
    pub data_properties: Seq<DataProperty>,
}

impl View for DataIndexPart {
    type V = DataIndexPartView;

    open spec fn view(&self) -> DataIndexPartView {
        DataIndexPartView {
            number_of_data: self.number_of_data,
            data_properties: self.data_properties@,
        }
    }
}

/// The error for the month `month`, which is not between 1 and 12: its text
/// shows the month as a decimal number.
pub open spec fn month_error(month: u8) -> RapReaderErrorView {
    RapReaderErrorView::Unexpected(
        DATE_MONTH_INVALID_HEAD@ + decimal(month as nat) + DATE_MONTH_INVALID_TAIL@,
    )
}

/// Builds the error for a month that is not between 1 and 12.
fn month_error_of(month: u8) -> (error: RapReaderError)
    ensures
        error@ == month_error(month),
{
    let mut text = String::from_str(DATE_MONTH_INVALID_HEAD);
    push_decimal(&mut text, month as u64);
    text.append(DATE_MONTH_INVALID_TAIL);
    RapReaderError::Unexpected(text)
}

/// Reading the observation time stored at position `at`: what comes of it,
/// and where the reader stands afterwards.
///
/// The time is a year of two bytes, then month, day, hour and minute of one
/// byte each. The fields are taken in this order, and the first that is
/// missing or out of range decides the error; only the month is looked at
/// before the fields behind it are read. The reader stops in front of a
/// field that is missing and behind one that is refused.
pub open spec fn date_time_read(data: Seq<u8>, at: int) -> (
    Result<CivilDateTime, RapReaderErrorView>,
    int,
) {
    if !available(data, at, 2) {
        (Err(within(DATE_YEAR, short_read(2))), at)
    } else if !available(data, at + 2, 1) {
        (Err(within(DATE_MONTH, short_read(1))), at + 2)
    } else if !(1 <= data[at + 2] <= 12) {
        (Err(month_error(data[at + 2])), at + 3)
    } else if !available(data, at + 3, 1) {
        (Err(within(DATE_DAY, short_read(1))), at + 3)
    } else if !available(data, at + 4, 1) {
        (Err(within(DATE_HOUR, short_read(1))), at + 4)
    } else if !available(data, at + 5, 1) {
        (Err(within(DATE_MINUTE, short_read(1))), at + 5)
    } else if !is_calendar_date(u16_at(data, at) as int, data[at + 2] as int, data[at + 3] as int) {
        (Err(unexpected(DATE_INVALID)), at + 6)
    } else if !is_clock_time(data[at + 4] as int, data[at + 5] as int, 0) {
        (Err(unexpected(TIME_INVALID)), at + 6)
    } else {
        (
            Ok(
                CivilDateTime {
                    year: u16_at(data, at) as i32,
                    month: data[at + 2],
                    day: data[at + 3],
                    hour: data[at + 4],
                    minute: data[at + 5],
                    second: 0,
                    nanosecond: 0,
                },
            ),
            at + 6,
        )
    }
}

/// The observation time stored at position `at`.
pub open spec fn date_time_at(data: Seq<u8>, at: int) -> Result<CivilDateTime, RapReaderErrorView> {
    date_time_read(data, at).0
}

/// Where the reader stands once the observation time at position `at` is
/// read or refused.
pub open spec fn date_time_end(data: Seq<u8>, at: int) -> int {
    date_time_read(data, at).1
}

/// An observation time that can be read exists in the calendar.
pub proof fn lemma_date_time_exists(data: Seq<u8>, at: int)
    requires
        date_time_at(data, at) is Ok,
    ensures
        date_time_at(data, at)->Ok_0.is_valid(),
{
}

/// Reads an observation time.
pub fn read_date_time(reader: &mut ByteReader) -> (res: Result<CivilDateTime, RapReaderError>)
    ensures
        final(reader).data == old(reader).data,
        final(reader).position == date_time_end(old(reader).data@, old(reader).position as int),
        match res {
            Ok(moment) => {
                &&& date_time_at(old(reader).data@, old(reader).position as int) == Ok::<
                    _,
                    RapReaderErrorView,
                >(moment)
                &&& moment.is_valid()
                &&& final(reader).position == old(reader).position + DATE_TIME_LEN
            },
            Err(e) => date_time_at(old(reader).data@, old(reader).position as int) == Err::<
                CivilDateTime,
                _,
            >(e@),
        },
{
    let year: u16 = match read_u16(reader) {
        Ok(value) => value,
        Err(e) => return Err(RapReaderError::within(DATE_YEAR, e)),
    };
    let month: u8 = match read_u8(reader) {
        Ok(value) => value,
        Err(e) => return Err(RapReaderError::within(DATE_MONTH, e)),
    };
    if !month_exists(month) {
        return Err(month_error_of(month));
    }
    let day: u8 = match read_u8(reader) {
        Ok(value) => value,
        Err(e) => return Err(RapReaderError::within(DATE_DAY, e)),
    };
    let hour: u8 = match read_u8(reader) {
        Ok(value) => value,
        Err(e) => return Err(RapReaderError::within(DATE_HOUR, e)),
    };
    let minute: u8 = match read_u8(reader) {
        Ok(value) => value,
        Err(e) => return Err(RapReaderError::within(DATE_MINUTE, e)),
    };
    if !calendar_date_exists(year as i32, month, day) {
        return Err(RapReaderError::unexpected(DATE_INVALID));
    }
    if !clock_time_exists(hour, minute, 0) {
        return Err(RapReaderError::unexpected(TIME_INVALID));
    }
    Ok(CivilDateTime { year: year as i32, month, day, hour, minute, second: 0, nanosecond: 0 })
}

/// Reading the index entry stored at position `at` and the data record
/// that it points to: what comes of it, and where the reader stands
/// afterwards.
///
/// The entry holds the observation time, the element code, eight reserved
/// bytes and the start position of the data record. The data record holds
/// the size of the compressed grid, the grid itself, the radar operation
/// status and the station count. The first field that cannot be read decides
/// the error, and the reader stops in front of it: in the entry, or in the
/// data record. After an entry that is read whole the reader stands behind
/// the entry.
pub open spec fn data_property_read(data: Seq<u8>, at: int) -> (
    Result<DataProperty, RapReaderErrorView>,
    int,
) {
    match date_time_read(data, at) {
        (Err(e), end) => (Err(e), end),
        (Ok(moment), _) => {
            if !available(data, at + 6, 2) {
                (Err(within(INDEX_ELEMENT, short_read(2))), at + 6)
            } else if at + 16 > u64::MAX {
                (Err(within(INDEX_RESERVED, unexpected(SEEK_OUT_OF_RANGE))), at + 8)
            } else if !available(data, at + 16, 4) {
                (Err(within(INDEX_START, short_read(4))), at + 16)
            } else {
                let start = u32_at(data, at + 16);
                if !available(data, start as int, 4) {
                    (Err(within(RECORD_SIZE, short_read(4))), start as int)
                } else {
                    let size = u32_at(data, start as int);
                    if !available(data, start + 4 + size, 8) {
                        (Err(within(RECORD_STATUS, short_read(8))), start + 4 + size)
                    } else if !available(data, start + 12 + size, 4) {
                        (Err(within(RECORD_STATIONS, short_read(4))), start + 12 + size)
                    } else {
                        (
                            Ok(
                                DataProperty {
                                    observation_date_time: moment,
                                    observation_element: u16_at(data, at + 6),
                                    data_start_position: start,
                                    compressed_data_size: size,
                                    radar_operation_statuses: u64_at(data, start + 4 + size),
                                    number_of_amedas: u32_at(data, start + 12 + size),
                                },
                            ),
                            at + 20,
                        )
                    }
                }
            }
        },
    }
}

/// The index entry stored at position `at`, completed from the data record
/// that it points to.
pub open spec fn data_property_at(data: Seq<u8>, at: int) -> Result<
    DataProperty,
    RapReaderErrorView,
> {
    data_property_read(data, at).0
}

/// Where the reader stands once the index entry at position `at` is read or
/// refused.
pub open spec fn data_property_end(data: Seq<u8>, at: int) -> int {
    data_property_read(data, at).1
}

/// Reads an index entry and, from the data record that it points to, the
/// size of the compressed grid, the radar operation status and the station
/// count. The reader ends behind the index entry.
pub fn read_data_property(reader: &mut ByteReader) -> (res: Result<DataProperty, RapReaderError>)
    ensures
        final(reader).data == old(reader).data,
        final(reader).position == data_property_end(old(reader).data@, old(reader).position as int),
        match res {
            Ok(property) => {
                &&& data_property_at(old(reader).data@, old(reader).position as int) == Ok::<
                    _,
                    RapReaderErrorView,
                >(property)
                &&& property.observation_date_time.is_valid()
                &&& final(reader).position == old(reader).position + ENTRY_LEN
            },
            Err(e) => data_property_at(old(reader).data@, old(reader).position as int) == Err::<
                DataProperty,
                _,
            >(e@),
        },
{
    let observation_date_time = match read_date_time(reader) {
        Ok(moment) => moment,
        Err(e) => return Err(e),
    };
    let observation_element: u16 = match read_u16(reader) {
        Ok(value) => value,
        Err(e) => return Err(RapReaderError::within(INDEX_ELEMENT, e)),
    };
    match reader.skip(8) {
        Ok(_) => {},
        Err(e) => return Err(RapReaderError::within(INDEX_RESERVED, e)),
    }
    let data_start_position: u32 = match read_u32(reader) {
        Ok(value) => value,
        Err(e) => return Err(RapReaderError::within(INDEX_START, e)),
    };
    // Look into the data record, then come back to the index.
    let position: u64 = reader.position;
    reader.seek(data_start_position as u64);
    let compressed_data_size: u32 = match read_u32(reader) {
        Ok(value) => value,
        Err(e) => return Err(RapReaderError::within(RECORD_SIZE, e)),
    };
    reader.seek(reader.position + compressed_data_size as u64);
    let radar_operation_statuses: u64 = match read_u64(reader) {
        Ok(value) => value,
        Err(e) => return Err(RapReaderError::within(RECORD_STATUS, e)),
    };
    let number_of_amedas: u32 = match read_u32(reader) {
        Ok(value) => value,
        Err(e) => return Err(RapReaderError::within(RECORD_STATIONS, e)),
    };
    reader.seek(position);
    Ok(
        DataProperty {
            observation_date_time,
            observation_element,
            data_start_position,
            compressed_data_size,
            radar_operation_statuses,
            number_of_amedas,
        },
    )
}

/// Reading the first `count` index entries stored from position `at` on:
/// the entries, or the error of the first entry that cannot be read, and
/// where the reader stands afterwards.
pub open spec fn data_properties_read(data: Seq<u8>, at: int, count: nat) -> (
    Result<Seq<DataProperty>, RapReaderErrorView>,
    int,
)
    decreases count,
{
    if count == 0 {
        (Ok(Seq::empty()), at)
    } else {
        match data_properties_read(data, at, (count - 1) as nat) {
            (Err(e), end) => (Err(e), end),
            (Ok(front), _) => match data_property_read(data, at + ENTRY_LEN * (count - 1)) {
                (Err(e), end) => (Err(e), end),
                (Ok(property), end) => (Ok(front.push(property)), end),
            },
        }
    }
}

/// The first `count` index entries stored from position `at` on, or the
/// error of the first entry that cannot be read.
pub open spec fn data_properties_at(data: Seq<u8>, at: int, count: nat) -> Result<
    Seq<DataProperty>,
    RapReaderErrorView,
> {
    data_properties_read(data, at, count).0
}

/// Reading the data index stored at position `at`: what comes of it, and
/// where the reader stands afterwards.
///
/// The data index is the number of observations in four bytes, which must
/// be 24 or 48, then that many entries. A number that is refused leaves the
/// reader behind its four bytes.
pub open spec fn data_index_part_read(data: Seq<u8>, at: int) -> (
    Result<DataIndexPartView, RapReaderErrorView>,
    int,
) {
    if !available(data, at, 4) {
        (Err(within(INDEX_COUNT, short_read(4))), at)
    } else {
        match ObservationTimes::spec_try_from(u32_at(data, at)) {
            Err(e) => (Err(e), at + 4),
            Ok(times) => match data_properties_read(data, at + 4, times.count() as nat) {
                (Err(e), end) => (Err(e), end),
                (Ok(properties), end) => (
                    Ok(DataIndexPartView { number_of_data: times, data_properties: properties }),
                    end,
                ),
            },
        }
    }
}

/// The data index stored at position `at`.
pub open spec fn data_index_part_at(data: Seq<u8>, at: int) -> Result<
    DataIndexPartView,
    RapReaderErrorView,
> {
    data_index_part_read(data, at).0
}

/// Where the reader stands once the data index at position `at` is read or
/// refused.
pub open spec fn data_index_part_end(data: Seq<u8>, at: int) -> int {
    data_index_part_read(data, at).1
}

/// Each entry of a run of entries that can be read is the one stored at its
/// place: 20 bytes behind the entry before it.
pub proof fn lemma_data_properties_entries(data: Seq<u8>, at: int, count: nat)
    requires
        data_properties_at(data, at, count) is Ok,
    ensures
        data_properties_at(data, at, count)->Ok_0.len() == count,
        forall|i: int|
            0 <= i < count ==> data_property_at(data, at + ENTRY_LEN * i) == Ok::<
                _,
                RapReaderErrorView,
            >(#[trigger] data_properties_at(data, at, count)->Ok_0[i]),
    decreases count,
{
    if count > 0 {
        lemma_data_properties_entries(data, at, (count - 1) as nat);
    }
}

/// A data index has 24 or 48 entries, as many as its number of observations
/// says.
pub proof fn lemma_data_index_is_full(data: Seq<u8>, at: int)
    requires
        data_index_part_at(data, at) is Ok,
    ensures
        data_index_part_at(data, at)->Ok_0.data_properties.len() == data_index_part_at(
            data,
            at,
        )->Ok_0.number_of_data.count(),
{
    let times = ObservationTimes::spec_try_from(u32_at(data, at))->Ok_0;
    lemma_data_properties_entries(data, at + 4, times.count() as nat);
}

/// The number of bytes of a data index with `count` entries.
pub open spec fn data_index_part_len(count: nat) -> int {
    4 + ENTRY_LEN * count
}

/// Reads the data index.
pub fn read_data_index_part(reader: &mut ByteReader) -> (res: Result<DataIndexPart, RapReaderError>)
    ensures
        final(reader).data == old(reader).data,
        final(reader).position == data_index_part_end(old(reader).data@, old(reader).position as int),
        match res {
            Ok(part) => {
                &&& data_index_part_at(old(reader).data@, old(reader).position as int) == Ok::<
                    _,
                    RapReaderErrorView,
                >(part@)
                &&& part@.data_properties.len() == part.number_of_data.count()
                &&& forall|i: int|
                    0 <= i < part@.data_properties.len()
                        ==> (#[trigger] part@.data_properties[i]).observation_date_time.is_valid()
                &&& final(reader).position == old(reader).position + data_index_part_len(
                    part@.data_properties.len(),
                )
            },
            Err(e) => data_index_part_at(old(reader).data@, old(reader).position as int) == Err::<
                DataIndexPartView,
                _,
            >(e@),
        },
{
    let ghost data = reader.data@;
    let ghost start = reader.position as int;
    let number_of_data: u32 = match read_u32(reader) {
        Ok(value) => value,
        Err(e) => return Err(RapReaderError::within(INDEX_COUNT, e)),
    };
    let number_of_data = match ObservationTimes::try_from(number_of_data) {
        Ok(times) => times,
        Err(e) => return Err(e),
    };
    let total: u32 = number_of_data.count();
    let mut data_properties: Vec<DataProperty> = Vec::new();
    let mut i: u32 = 0;
    while i < total
        invariant
            i <= total <= 48,
            data == old(reader).data@,
            start == old(reader).position,
            available(data, start, 4),
            ObservationTimes::spec_try_from(u32_at(data, start)) == Ok::<_, RapReaderErrorView>(
                number_of_data,
            ),
            total == number_of_data.count(),
            reader.data == old(reader).data,
            reader.data@ == data,
            reader.position == start + 4 + ENTRY_LEN * i,
            data_properties_read(data, start + 4, i as nat) == (
                Ok::<_, RapReaderErrorView>(data_properties@),
                start + 4 + ENTRY_LEN * i,
            ),
            data_properties@.len() == i,
            forall|j: int|
                0 <= j < data_properties@.len()
                    ==> (#[trigger] data_properties@[j]).observation_date_time.is_valid(),
        decreases total - i,
    {
        let property = match read_data_property(reader) {
            Ok(property) => property,
            Err(e) => {
                proof {
                    lemma_failing_entry(data, start + 4, i as nat, total as nat);
                }
                return Err(e);
            },
        };
        data_properties.push(property);
        i = i + 1;
    }
    Ok(DataIndexPart { number_of_data, data_properties })
}

/// Where the entry behind the first `good` entries cannot be read, no longer
/// run of entries can be read either, and the error is that of this entry.
proof fn lemma_failing_entry(data: Seq<u8>, at: int, good: nat, count: nat)
    requires
        good < count,
        data_properties_at(data, at, good) is Ok,
        data_property_at(data, at + ENTRY_LEN * good) is Err,
    ensures
        data_properties_read(data, at, count) == (
            Err::<Seq<DataProperty>, _>(data_property_at(data, at + ENTRY_LEN * good)->Err_0),
            data_property_end(data, at + ENTRY_LEN * good),
        ),
    decreases count,
{
    if count > good + 1 {
        lemma_failing_entry(data, at, good, (count - 1) as nat);
    }
}

/// The place of the first entry for `moment` among `properties`, not looking
/// at the entries before `from`; the number of entries where there is none.
pub open spec fn first_recorded_from(
    properties: Seq<DataProperty>,
    moment: CivilDateTime,
    from: int,
) -> int
    decreases properties.len() - from,
{
    if from < 0 || from >= properties.len() {
        properties.len() as int
    } else if properties[from].observation_date_time == moment {
        from
    } else {
        first_recorded_from(properties, moment, from + 1)
    }
}

/// The first entry of `properties` for exactly `moment`, if there is one.
pub open spec fn recorded_at(properties: Seq<DataProperty>, moment: CivilDateTime) -> Option<
    DataProperty,
> {
    let place = first_recorded_from(properties, moment, 0);
    if place < properties.len() {
        Some(properties[place])
    } else {
        None
    }
}

/// The place that [`first_recorded_from`] gives holds the first entry for
/// `moment` behind `from`.
pub proof fn lemma_first_recorded(properties: Seq<DataProperty>, moment: CivilDateTime, from: int)
    requires
        0 <= from <= properties.len(),
    ensures
        from <= first_recorded_from(properties, moment, from) <= properties.len(),
        first_recorded_from(properties, moment, from) < properties.len()
            ==> properties[first_recorded_from(
            properties,
            moment,
            from,
        )].observation_date_time == moment,
        forall|j: int|
            from <= j < first_recorded_from(properties, moment, from)
                ==> (#[trigger] properties[j]).observation_date_time != moment,
    decreases properties.len() - from,
{
    if from < properties.len() && properties[from].observation_date_time != moment {
        lemma_first_recorded(properties, moment, from + 1);
    }
}

impl DataIndexPart {
    /// Looks up the observation made at exactly `moment`: the first entry
    /// with that time, and an error where no entry has it.
    pub fn lookup(&self, moment: CivilDateTime) -> (res: Result<DataProperty, RapReaderError>)
        ensures
            match res {
                Ok(property) => recorded_at(self@.data_properties, moment) == Some(property),
                Err(e) => recorded_at(self@.data_properties, moment) is None
                    && e@ == RapReaderErrorView::DataDoesNotRecorded(moment),
            },
    {
        let mut i: usize = 0;
        while i < self.data_properties.len()
            invariant
                i <= self.data_properties.len(),
                first_recorded_from(self@.data_properties, moment, 0) == first_recorded_from(
                    self@.data_properties,
                    moment,
                    i as int,
                ),
            decreases self.data_properties.len() - i,
        {
            let property = self.data_properties[i];
            if property.observation_date_time == moment {
                return Ok(property);
            }
            i = i + 1;
        }
        Err(RapReaderError::DataDoesNotRecorded(moment))
    }
}

} // verus!
