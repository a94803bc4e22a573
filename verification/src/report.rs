//! What a file records as a report for people: the header with its tables,
//! and the table of the data records.
use vstd::prelude::*;
use vstd::string::{StrSliceExecFns, StringExecFns};

use crate::datetime::format_date_time;
use crate::header::LevelRepetition;
use crate::index::DataProperty;
use crate::reader::{Document, RapReader};
use crate::text::{decimal, decimal_text, push_upper_hex, upper_hex};
use crate::values::NO_DATA;

verus! {

// The lines that start the two tables.
pub const VALUES_TITLE: &'static str = "    レベルごとの観測値\n";

pub const VALUES_HEAD: &'static str = "    level       value\n";

pub const REPETITIONS_TITLE: &'static str = "    レベルと反復数\n";

pub const REPETITIONS_HEAD: &'static str = "    level  repetition\n";

pub const RULE: &'static str = "    -----------------\n";

/// What stands in place of the value of a level without a measurement.
pub const NO_VALUE: &'static str = "None";

/// The width of the first column of a table.
pub const FIRST_COLUMN: usize = 9;

/// The width of the second column of a table.
pub const SECOND_COLUMN: usize = 12;

/// `count` spaces.
pub open spec fn spaces(count: nat) -> Seq<char> {
    Seq::new(count, |i: int| ' ')
}

/// `text` behind the spaces that fill it up to `width` characters; a longer
/// text stays as it is.
pub open spec fn right_aligned(text: Seq<char>, width: nat) -> Seq<char> {
    if text.len() < width {
        spaces((width - text.len()) as nat) + text
    } else {
        text
    }
}

/// The line of a table with the numbers `first` and `second`.
pub open spec fn table_line(first: Seq<char>, second: Seq<char>) -> Seq<char> {
    right_aligned(first, FIRST_COLUMN as nat) + right_aligned(second, SECOND_COLUMN as nat)
        + seq!['\n']
}

/// What a table shows for a level value.
pub open spec fn shown_value(value: u16) -> Seq<char> {
    if value < NO_DATA {
        decimal(value as nat)
    } else {
        NO_VALUE@
    }
}

/// The lines of the first `count` levels.
pub open spec fn value_lines(values: Seq<u16>, count: nat) -> Seq<char>
    decreases count,
{
    if count == 0 {
        Seq::empty()
    } else {
        value_lines(values, (count - 1) as nat) + table_line(
            decimal((count - 1) as nat),
            shown_value(values[count - 1]),
        )
    }
}

/// The table of the levels and their values.
pub open spec fn value_by_levels_report(values: Seq<u16>) -> Seq<char> {
    VALUES_TITLE@ + VALUES_HEAD@ + RULE@ + value_lines(values, values.len())
}

/// The lines of the first `count` entries of the level repetition table.
pub open spec fn repetition_lines(entries: Seq<LevelRepetition>, count: nat) -> Seq<char>
    decreases count,
{
    if count == 0 {
        Seq::empty()
    } else {
        repetition_lines(entries, (count - 1) as nat) + table_line(
            decimal(entries[count - 1].level as nat),
            decimal(entries[count - 1].repetition as nat),
        )
    }
}

/// The table of the levels and their repetitions.
pub open spec fn level_repetitions_report(entries: Seq<LevelRepetition>) -> Seq<char> {
    REPETITIONS_TITLE@ + REPETITIONS_HEAD@ + RULE@ + repetition_lines(entries, entries.len())
}

/// Appends `count` spaces to `text`.
fn push_spaces(text: &mut String, count: usize)
    ensures
        final(text)@ == old(text)@ + spaces(count as nat),
{
    proof {
        reveal_strlit(" ");
    }
    let mut i: usize = 0;
    while i < count
        invariant
            i <= count,
            " "@ =~= seq![' '],
            text@ == old(text)@ + spaces(i as nat),
        decreases count - i,
    {
        text.append(" ");
        i = i + 1;
    }
}

/// Appends `item` to `text`, behind the spaces that fill it up to `width`
/// characters.
fn push_right_aligned(text: &mut String, item: &str, width: usize)
    ensures
        final(text)@ == old(text)@ + right_aligned(item@, width as nat),
{
    let len: usize = item.unicode_len();
    if len < width {
        push_spaces(text, width - len);
    }
    text.append(item);
}

/// Appends the line of a table with the numbers `first` and `second`.
fn push_table_line(text: &mut String, first: &str, second: &str)
    ensures
        final(text)@ == old(text)@ + table_line(first@, second@),
{
    push_right_aligned(text, first, FIRST_COLUMN);
    push_right_aligned(text, second, SECOND_COLUMN);
    text.append("\n");
    proof {
        reveal_strlit("\n");
    }
}

/// The table of the levels and their values: a title, the names of the
/// columns, a rule, and a line for each level with the level and its value,
/// each aligned to the right of its column. A level without a measurement
/// shows `None` in place of its value.
pub fn print_value_by_levels(value_by_levels: &[u16]) -> (text: String)
    ensures
        text@ == value_by_levels_report(value_by_levels@),
{
    let mut text = String::from_str(VALUES_TITLE);
    text.append(VALUES_HEAD);
    text.append(RULE);
    let ghost head = text@;
    let mut level: usize = 0;
    while level < value_by_levels.len()
        invariant
            level <= value_by_levels.len(),
            head == VALUES_TITLE@ + VALUES_HEAD@ + RULE@,
            text@ == head + value_lines(value_by_levels@, level as nat),
        decreases value_by_levels.len() - level,
    {
        let value: u16 = value_by_levels[level];
        let shown = if value < u16::MAX {
            decimal_text(value as u64)
        } else {
            String::from_str(NO_VALUE)
        };
        let number = decimal_text(level as u64);
        push_table_line(&mut text, number.as_str(), shown.as_str());
        level = level + 1;
    }
    text
}

/// The table of the levels and their repetitions: a title, the names of the
/// columns, a rule, and a line for each entry with its level and its
/// repetition, each aligned to the right of its column.
pub fn print_level_repetitions(level_repetitions: &[LevelRepetition]) -> (text: String)
    ensures
        text@ == level_repetitions_report(level_repetitions@),
{
    let mut text = String::from_str(REPETITIONS_TITLE);
    text.append(REPETITIONS_HEAD);
    text.append(RULE);
    let ghost head = text@;
    let mut i: usize = 0;
    while i < level_repetitions.len()
        invariant
            i <= level_repetitions.len(),
            head == REPETITIONS_TITLE@ + REPETITIONS_HEAD@ + RULE@,
            text@ == head + repetition_lines(level_repetitions@, i as nat),
        decreases level_repetitions.len() - i,
    {
        let lr = level_repetitions[i];
        let level = decimal_text(lr.level as u64);
        let repetition = decimal_text(lr.repetition as u64);
        push_table_line(&mut text, level.as_str(), repetition.as_str());
        i = i + 1;
    }
    text
}

// The lines that start the two tables of the observations.
pub const PROPERTIES_TITLE: &'static str = "    記録されている観測データ\n";

pub const PROPERTIES_HEAD: &'static str = "    date-time               elem   start-pos\n";

pub const PROPERTIES_RULE: &'static str = "    ----------------------------------------\n";

pub const RECORDS_TITLE: &'static str = "データ部\n";

pub const RECORDS_HEAD: &'static str =
    "date-time                 compressed    radar-status              amedas\n";

pub const RECORDS_RULE: &'static str =
    "------------------------------------------------------------------------\n";

/// The space in front of a line of the index, and between the compressed
/// size and the radar operation status.
pub const INDENT: &'static str = "    ";

/// What stands in front of hexadecimal digits.
pub const HEX_MARK: &'static str = "0x";

/// The width of the column of the observation time, and of that of the
/// radar operation status.
pub const WIDE_COLUMN: usize = 20;

/// The width of the column of the element.
pub const ELEMENT_COLUMN: usize = 8;

/// The width of the column of the compressed size.
pub const SIZE_COLUMN: usize = 16;

/// The number of hexadecimal digits of the radar operation status.
pub const STATUS_DIGITS: usize = 16;

/// `text` in front of the spaces that fill it up to `width` characters; a
/// longer text stays as it is.
pub open spec fn left_aligned(text: Seq<char>, width: nat) -> Seq<char> {
    if text.len() < width {
        text + spaces((width - text.len()) as nat)
    } else {
        text
    }
}

/// `count` zeros.
pub open spec fn zeros(count: nat) -> Seq<char> {
    Seq::new(count, |i: int| '0')
}

/// `text` behind the zeros that fill it up to `width` characters; a longer
/// text stays as it is.
pub open spec fn zero_filled(text: Seq<char>, width: nat) -> Seq<char> {
    if text.len() < width {
        zeros((width - text.len()) as nat) + text
    } else {
        text
    }
}

/// The line of the index table for `property`, whose observation time is
/// written as `time`: the time, the element, and the start position in
/// hexadecimal digits.
pub open spec fn data_property_line(property: DataProperty, time: Seq<char>) -> Seq<char> {
    INDENT@ + left_aligned(time, WIDE_COLUMN as nat) + right_aligned(
        decimal(property.observation_element as nat),
        ELEMENT_COLUMN as nat,
    ) + right_aligned(
        HEX_MARK@ + upper_hex(property.data_start_position as nat),
        SECOND_COLUMN as nat,
    ) + seq!['\n']
}

/// The line of the table of the data records for `property`, whose
/// observation time is written as `time`: the time, the compressed size,
/// the radar operation status in 16 hexadecimal digits, and the station
/// count.
pub open spec fn data_record_line(property: DataProperty, time: Seq<char>) -> Seq<char> {
    left_aligned(time, WIDE_COLUMN as nat) + right_aligned(
        decimal(property.compressed_data_size as nat),
        SIZE_COLUMN as nat,
    ) + INDENT@ + left_aligned(
        HEX_MARK@ + zero_filled(
            upper_hex(property.radar_operation_statuses as nat),
            STATUS_DIGITS as nat,
        ),
        WIDE_COLUMN as nat,
    ) + right_aligned(decimal(property.number_of_amedas as nat), SECOND_COLUMN as nat) + seq!['\n']
}

/// The lines of the index table for the first `count` entries; nothing
/// where the observation time of one of them has no text.
pub open spec fn data_property_lines(entries: Seq<DataProperty>, count: nat) -> Option<Seq<char>>
    decreases count,
{
    if count == 0 {
        Some(Seq::empty())
    } else {
        match data_property_lines(entries, (count - 1) as nat) {
            None => None,
            Some(front) => match entries[count - 1].observation_date_time.shown() {
                None => None,
                Some(time) => Some(front + data_property_line(entries[count - 1], time)),
            },
        }
    }
}

/// The index table.
pub open spec fn data_properties_report(entries: Seq<DataProperty>) -> Option<Seq<char>> {
    match data_property_lines(entries, entries.len()) {
        None => None,
        Some(lines) => Some(PROPERTIES_TITLE@ + PROPERTIES_HEAD@ + PROPERTIES_RULE@ + lines),
    }
}

/// The lines of the table of the data records for the first `count`
/// entries; nothing where the observation time of one of them has no text.
pub open spec fn data_record_lines(entries: Seq<DataProperty>, count: nat) -> Option<Seq<char>>
    decreases count,
{
    if count == 0 {
        Some(Seq::empty())
    } else {
        match data_record_lines(entries, (count - 1) as nat) {
            None => None,
            Some(front) => match entries[count - 1].observation_date_time.shown() {
                None => None,
                Some(time) => Some(front + data_record_line(entries[count - 1], time)),
            },
        }
    }
}

/// The table of the data records.
pub open spec fn data_part_report(entries: Seq<DataProperty>) -> Option<Seq<char>> {
    match data_record_lines(entries, entries.len()) {
        None => None,
        Some(lines) => Some(RECORDS_TITLE@ + RECORDS_HEAD@ + RECORDS_RULE@ + lines),
    }
}

/// Where the entry behind the first `good` entries has no line, no longer
/// run of entries has lines.
proof fn lemma_no_lines(entries: Seq<DataProperty>, good: nat, count: nat)
    requires
        good < count,
        entries[good as int].observation_date_time.shown() is None,
    ensures
        data_property_lines(entries, count) is None,
        data_record_lines(entries, count) is None,
    decreases count,
{
    if count > good + 1 {
        lemma_no_lines(entries, good, (count - 1) as nat);
    }
}

/// Appends `item` to `text`, in front of the spaces that fill it up to
/// `width` characters.
fn push_left_aligned(text: &mut String, item: &str, width: usize)
    ensures
        final(text)@ == old(text)@ + left_aligned(item@, width as nat),
{
    let len: usize = item.unicode_len();
    text.append(item);
    if len < width {
        push_spaces(text, width - len);
    }
    assert(text@ =~= old(text)@ + left_aligned(item@, width as nat));
}

/// Appends `item` to `text`, behind the zeros that fill it up to `width`
/// characters.
fn push_zero_filled(text: &mut String, item: &str, width: usize)
    ensures
        final(text)@ == old(text)@ + zero_filled(item@, width as nat),
{
    proof {
        reveal_strlit("0");
    }
    let len: usize = item.unicode_len();
    let mut i: usize = len;
    while i < width
        invariant
            len == item@.len(),
            len <= i,
            len < width ==> i <= width,
            len >= width ==> i == len,
            "0"@ =~= seq!['0'],
            text@ == old(text)@ + zeros((i - len) as nat),
        decreases width - i,
    {
        text.append("0");
        i = i + 1;
        assert(text@ =~= old(text)@ + zeros((i - len) as nat));
    }
    assert(old(text)@ + zeros(0) =~= old(text)@);
    text.append(item);
    assert(text@ =~= old(text)@ + zero_filled(item@, width as nat));
}

/// The line of the index table for `property`, whose observation time is
/// written as `time`.
pub fn data_property_text(property: &DataProperty, time: &str) -> (line: String)
    ensures
        line@ == data_property_line(*property, time@),
{
    let mut line = String::from_str(INDENT);
    push_left_aligned(&mut line, time, WIDE_COLUMN);
    let element = decimal_text(property.observation_element as u64);
    push_right_aligned(&mut line, element.as_str(), ELEMENT_COLUMN);
    let mut position = String::from_str(HEX_MARK);
    push_upper_hex(&mut position, property.data_start_position as u64);
    push_right_aligned(&mut line, position.as_str(), SECOND_COLUMN);
    line.append("\n");
    proof {
        reveal_strlit("\n");
    }
    assert(line@ =~= data_property_line(*property, time@));
    line
}

/// The line of the table of the data records for `property`, whose
/// observation time is written as `time`.
pub fn data_record_text(property: &DataProperty, time: &str) -> (line: String)
    ensures
        line@ == data_record_line(*property, time@),
{
    let mut line = String::new();
    push_left_aligned(&mut line, time, WIDE_COLUMN);
    let size = decimal_text(property.compressed_data_size as u64);
    push_right_aligned(&mut line, size.as_str(), SIZE_COLUMN);
    line.append(INDENT);
    let mut digits = String::new();
    push_upper_hex(&mut digits, property.radar_operation_statuses);
    let mut status = String::from_str(HEX_MARK);
    push_zero_filled(&mut status, digits.as_str(), STATUS_DIGITS);
    push_left_aligned(&mut line, status.as_str(), WIDE_COLUMN);
    let stations = decimal_text(property.number_of_amedas as u64);
    push_right_aligned(&mut line, stations.as_str(), SECOND_COLUMN);
    line.append("\n");
    proof {
        reveal_strlit("\n");
    }
    assert(digits@ =~= upper_hex(property.radar_operation_statuses as nat));
    assert(line@ =~= data_record_line(*property, time@));
    line
}

/// The index table: a title, the names of the columns, a rule, and a line
/// for each entry with its observation time, its element and its start
/// position. There is no table where an observation time has no text.
pub fn print_data_properties(data_properties: &[DataProperty]) -> (text: Option<String>)
    ensures
        match text {
            Some(t) => data_properties_report(data_properties@) == Some(t@),
            None => data_properties_report(data_properties@) is None,
        },
{
    let mut text = String::from_str(PROPERTIES_TITLE);
    text.append(PROPERTIES_HEAD);
    text.append(PROPERTIES_RULE);
    let ghost head = text@;
    let mut i: usize = 0;
    while i < data_properties.len()
        invariant
            i <= data_properties.len(),
            head == PROPERTIES_TITLE@ + PROPERTIES_HEAD@ + PROPERTIES_RULE@,
            data_property_lines(data_properties@, i as nat) is Some,
            text@ == head + data_property_lines(data_properties@, i as nat)->0,
        decreases data_properties.len() - i,
    {
        let time = match format_date_time(data_properties[i].observation_date_time) {
            Some(time) => time,
            None => {
                proof {
                    lemma_no_lines(data_properties@, i as nat, data_properties@.len());
                }
                return None;
            },
        };
        let line = data_property_text(&data_properties[i], time.as_str());
        text.append(line.as_str());
        i = i + 1;
        assert(text@ =~= head + data_property_lines(data_properties@, i as nat)->0);
    }
    assert(head + data_property_lines(data_properties@, 0)->0 =~= head);
    Some(text)
}

/// The table of the data records: a title, the names of the columns, a
/// rule, and a line for each entry with its observation time, the size of
/// its compressed grid, its radar operation status and its station count.
/// There is no table where an observation time has no text.
pub fn print_data_part(data_properties: &[DataProperty]) -> (text: Option<String>)
    ensures
        match text {
            Some(t) => data_part_report(data_properties@) == Some(t@),
            None => data_part_report(data_properties@) is None,
        },
{
    let mut text = String::from_str(RECORDS_TITLE);
    text.append(RECORDS_HEAD);
    text.append(RECORDS_RULE);
    let ghost head = text@;
    let mut i: usize = 0;
    while i < data_properties.len()
        invariant
            i <= data_properties.len(),
            head == RECORDS_TITLE@ + RECORDS_HEAD@ + RECORDS_RULE@,
            data_record_lines(data_properties@, i as nat) is Some,
            text@ == head + data_record_lines(data_properties@, i as nat)->0,
        decreases data_properties.len() - i,
    {
        let time = match format_date_time(data_properties[i].observation_date_time) {
            Some(time) => time,
            None => {
                proof {
                    lemma_no_lines(data_properties@, i as nat, data_properties@.len());
                }
                return None;
            },
        };
        let line = data_record_text(&data_properties[i], time.as_str());
        text.append(line.as_str());
        i = i + 1;
        assert(text@ =~= head + data_record_lines(data_properties@, i as nat)->0);
    }
    assert(head + data_record_lines(data_properties@, 0)->0 =~= head);
    Some(text)
}

// The titles and labels of the report on the header.
pub const COMMENT_TITLE: &'static str = "管理部 - コメント\n";

pub const IDENTIFIER_LABEL: &'static str = "    識別子: ";

pub const VERSION_LABEL: &'static str = "    版番号: ";

pub const CREATOR_LABEL: &'static str = "    作成者コメント: ";

pub const INDEX_TITLE: &'static str = "管理部 - データ部へのインデックス\n";

pub const NUMBER_OF_DATA_LABEL: &'static str = "    データ数: ";

pub const GRID_TITLE: &'static str = "管理部 - 格子系定義\n";

pub const MAP_TYPE_LABEL: &'static str = "    地図種別: ";

pub const LATITUDE_LABEL: &'static str = "    最北西端の緯度: ";

pub const LONGITUDE_LABEL: &'static str = "    最北西端の経度: ";

pub const WIDTH_LABEL: &'static str = "    格子の幅: ";

pub const HEIGHT_LABEL: &'static str = "    格子の高さ: ";

pub const H_GRIDS_LABEL: &'static str = "    経度方向の格子数: ";

pub const V_GRIDS_LABEL: &'static str = "    緯度方向の格子数: ";

pub const COMPRESSION_TITLE: &'static str = "管理部 - 圧縮方法、観測値表\n";

pub const METHOD_LABEL: &'static str = "    圧縮方法: ";

pub const LEVELS_LABEL: &'static str = "    レベルの数: ";

pub const REPETITIONS_LABEL: &'static str = "    レベルと反復数の数: ";

/// The line that shows `value` behind `label`.
pub open spec fn labelled(label: &str, value: Seq<char>) -> Seq<char> {
    label@ + value + seq!['\n']
}

/// The line that shows the number `value` behind `label`.
pub open spec fn counted(label: &str, value: nat) -> Seq<char> {
    labelled(label, decimal(value))
}

/// The report on the header: the comment, the data index with its table,
/// the grid definition, and the compression method with the two tables.
/// There is no report where there is no index table.
pub open spec fn management_report(document: Document) -> Option<Seq<char>> {
    match data_properties_report(document.index.data_properties) {
        None => None,
        Some(index) => Some(
            COMMENT_TITLE@ + labelled(IDENTIFIER_LABEL, document.comment.identifier) + labelled(
                VERSION_LABEL,
                document.comment.version,
            ) + labelled(CREATOR_LABEL, document.comment.creator_comment) + INDEX_TITLE@ + counted(
                NUMBER_OF_DATA_LABEL,
                document.index.number_of_data.count() as nat,
            ) + index + GRID_TITLE@ + counted(MAP_TYPE_LABEL, document.grid.map_type as nat)
                + counted(LATITUDE_LABEL, document.grid.start_grid_latitude as nat) + counted(
                LONGITUDE_LABEL,
                document.grid.start_grid_longitude as nat,
            ) + counted(WIDTH_LABEL, document.grid.grid_width as nat) + counted(
                HEIGHT_LABEL,
                document.grid.grid_height as nat,
            ) + counted(H_GRIDS_LABEL, document.grid.number_of_h_grids as nat) + counted(
                V_GRIDS_LABEL,
                document.grid.number_of_v_grids as nat,
            ) + COMPRESSION_TITLE@ + counted(
                METHOD_LABEL,
                document.compression.compression_method as nat,
            ) + counted(LEVELS_LABEL, document.compression.number_of_levels as nat)
                + value_by_levels_report(document.compression.value_by_levels) + counted(
                REPETITIONS_LABEL,
                document.repetitions.number_of_level_repetitions as nat,
            ) + level_repetitions_report(document.repetitions.level_repetitions),
        ),
    }
}

/// The whole report: that on the header, then the table of the data
/// records. There is no report where an observation time has no text.
pub open spec fn whole_report(document: Document) -> Option<Seq<char>> {
    match management_report(document) {
        None => None,
        Some(header) => match data_part_report(document.index.data_properties) {
            None => None,
            Some(records) => Some(header + records),
        },
    }
}

/// Appends the line that shows `value` behind `label`.
fn push_labelled(text: &mut String, label: &str, value: &str)
    ensures
        final(text)@ == old(text)@ + labelled(label, value@),
{
    text.append(label);
    text.append(value);
    text.append("\n");
    proof {
        reveal_strlit("\n");
    }
    assert(text@ =~= old(text)@ + labelled(label, value@));
}

/// Appends the line that shows the number `value` behind `label`.
fn push_counted(text: &mut String, label: &str, value: u64)
    ensures
        final(text)@ == old(text)@ + counted(label, value as nat),
{
    let number = decimal_text(value);
    push_labelled(text, label, number.as_str());
}

/// The report on the header of `reader`.
pub fn print_management_part(reader: &RapReader) -> (text: Option<String>)
    ensures
        match text {
            Some(t) => management_report(reader@) == Some(t@),
            None => management_report(reader@) is None,
        },
{
    let index = match print_data_properties(reader.data_properties()) {
        Some(table) => table,
        None => return None,
    };
    let mut text = String::from_str(COMMENT_TITLE);
    push_labelled(&mut text, IDENTIFIER_LABEL, reader.identifier());
    push_labelled(&mut text, VERSION_LABEL, reader.version());
    push_labelled(&mut text, CREATOR_LABEL, reader.creator_comment());
    text.append(INDEX_TITLE);
    push_counted(&mut text, NUMBER_OF_DATA_LABEL, reader.number_of_data() as u64);
    text.append(index.as_str());
    text.append(GRID_TITLE);
    push_counted(&mut text, MAP_TYPE_LABEL, reader.map_type() as u64);
    push_counted(&mut text, LATITUDE_LABEL, reader.grid_start_latitude() as u64);
    push_counted(&mut text, LONGITUDE_LABEL, reader.grid_start_longitude() as u64);
    push_counted(&mut text, WIDTH_LABEL, reader.grid_width() as u64);
    push_counted(&mut text, HEIGHT_LABEL, reader.grid_height() as u64);
    push_counted(&mut text, H_GRIDS_LABEL, reader.number_of_h_grids() as u64);
    push_counted(&mut text, V_GRIDS_LABEL, reader.number_of_v_grids() as u64);
    text.append(COMPRESSION_TITLE);
    push_counted(&mut text, METHOD_LABEL, reader.compression_method() as u64);
    push_counted(&mut text, LEVELS_LABEL, reader.number_of_levels() as u64);
    let values = print_value_by_levels(reader.value_by_levels());
    text.append(values.as_str());
    push_counted(&mut text, REPETITIONS_LABEL, reader.number_of_level_repetitions() as u64);
    let repetitions = print_level_repetitions(reader.level_repetitions());
    text.append(repetitions.as_str());
    Some(text)
}

/// The whole report on `reader`: the header, then the data records.
pub fn pretty_print(reader: &RapReader) -> (text: Option<String>)
    ensures
        match text {
            Some(t) => whole_report(reader@) == Some(t@),
            None => whole_report(reader@) is None,
        },
{
    let mut text = match print_management_part(reader) {
        Some(header) => header,
        None => return None,
    };
    match print_data_part(reader.data_properties()) {
        Some(records) => {
            text.append(records.as_str());
            Some(text)
        },
        None => None,
    }
}

} // verus!
