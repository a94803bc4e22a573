//! The parts of the header around the data index: the comment, the grid
//! definition, the compression table and the level repetition table.
use vstd::prelude::*;
use vstd::string::StringExecFns;

use crate::bytes::{
    available,
    short_read,
    read_str,
    read_u16,
    read_u32,
    read_u8,
    text_at,
    u16_at,
    u32_at,
    ByteReader,
    INVALID_TEXT,
    SEEK_OUT_OF_RANGE,
};
use crate::error::{unexpected, within, RapReaderError, RapReaderErrorView};
use crate::text::{decimal, push_decimal};

verus! {

// What the texts of the errors of the header start with, one for each field
// that may fail; what went wrong with the field follows.
pub const COMMENT_IDENTIFIER: &'static str = "コメントの識別子の読み込みに失敗しました。";

pub const COMMENT_VERSION: &'static str = "コメントの版番号の読み込みに失敗しました。";

pub const COMMENT_CREATOR: &'static str = "コメントの作成者コメントの読み込みに失敗しました。";

pub const COMMENT_TRAILER: &'static str = "コメントの末尾3バイトの読み込みに失敗しました。";

/// What the text of the error for other bytes at the end of the comment
/// starts with, in front of the three bytes that were found.
pub const COMMENT_TRAILER_INVALID_HEAD: &'static str =
    "コメントの末尾3バイトが`0x0d 0x0a 0x00`ではありません。実際には[";

/// What stands between two of the three bytes that were found.
pub const COMMENT_TRAILER_INVALID_BETWEEN: &'static str = ", ";

/// What the text of the error for other bytes at the end of the comment
/// ends with.
pub const COMMENT_TRAILER_INVALID_TAIL: &'static str = "]でした。";

pub const GRID_FIRST_RESERVED: &'static str = "格子系定義の最初の予備のシークに失敗しました。";

pub const GRID_MAP_TYPE: &'static str = "格子系定義の地図種別の読み込みに失敗しました。";

pub const GRID_LATITUDE: &'static str = "格子系定義の最初のデータの緯度の読み込みに失敗しました。";

pub const GRID_LONGITUDE: &'static str = "格子系定義の最初のデータの経度の読み込みに失敗しました。";

pub const GRID_WIDTH: &'static str = "格子系定義の格子の幅の読み込みに失敗しました。";

pub const GRID_HEIGHT: &'static str = "格子系定義の格子の高さの読み込みに失敗しました。";

pub const GRID_H_COUNT: &'static str = "格子系定義の横方向の格子数の読み込みに失敗しました。";

pub const GRID_V_COUNT: &'static str = "格子系定義の縦方向の格子数の読み込みに失敗しました。";

pub const GRID_LAST_RESERVED: &'static str = "格子系定義の最後の予備のシークに失敗しました。";

pub const COMPRESSION_CODE: &'static str = "圧縮方法・観測値表の圧縮方法の読み込みに失敗しました。";

pub const LEVEL_COUNT: &'static str = "圧縮方法・観測値表のレベル数の読み込みに失敗しました。";

pub const LEVEL_VALUE: &'static str =
    "圧縮方法・観測値表のレベルごとの観測値の読み込みに失敗しました。";

pub const REPETITION_COUNT: &'static str = "レベル・反復表の表の大きさの読み込みに失敗しました。";

pub const REPETITION_LEVEL: &'static str = "レベル・反復表のレベルの読み込みに失敗しました。";

pub const REPETITION_REPETITION: &'static str = "レベル・反復表の反復数の読み込みに失敗しました。";

/// The map type of a grid of latitudes and longitudes, the only one that is read.
pub const MAP_TYPE: u16 = 1;

/// The compression method of run-length coding, the only one that is read.
pub const COMPRESSION_METHOD: u16 = 1;

/// The number of bytes of the comment.
pub const COMMENT_PART_LEN: u64 = 80;

/// The number of bytes of the grid definition.
pub const GRID_DEFINITION_PART_LEN: u64 = 40;

/// The comment that starts a file.
#[derive(Debug, Clone, PartialEq, Eq)]
pub struct CommentPart {
    pub identifier: String,
    pub version: String,
    pub creator_comment: String,
}

/// A [`CommentPart`] with its texts as sequences of characters.
pub struct CommentPartView {
    pub identifier: Seq<char>,
    pub version: Seq<char>,
    pub creator_comment: Seq<char>,
}

impl View for CommentPart {
    type V = CommentPartView;

    open spec fn view(&self) -> CommentPartView {
        CommentPartView {
            identifier: self.identifier@,
            version: self.version@,
            creator_comment: self.creator_comment@,
        }
    }
}

/// Where on the globe the cells of a grid lie. Angles are counted in
/// millionths of a degree.
#[derive(Debug, Clone, Copy, PartialEq, Eq, Structural)]
pub struct GridDefinitionPart {
    pub map_type: u16,
    /// The latitude of the first cell, the one in the north-west corner.
    pub start_grid_latitude: u32,
    /// The longitude of the first cell.
    pub start_grid_longitude: u32,
    /// The step from a cell to the next one to the east.
    pub grid_width: u32,
    /// The step from a row to the next one to the south.
    pub grid_height: u32,
    /// The number of cells in a row.
    pub number_of_h_grids: u16,
    /// The number of rows.
    pub number_of_v_grids: u16,
}

/// The compression method and the value that each level stands for, in
/// tenths of a millimetre. The value `0xFFFF` stands for no measurement.
#[derive(Debug, Clone, PartialEq, Eq)]
pub struct CompressionPart {
    pub compression_method: u16,
    pub number_of_levels: u16,
    /// The value of each level, with the level as the index.
    pub value_by_levels: Vec<u16>,
}

/// A [`CompressionPart`] with its values as a sequence.
pub struct CompressionPartView {
    pub compression_method: u16,
    pub number_of_levels: u16,
    pub value_by_levels: Seq<u16>,
}

impl View for CompressionPart {
    type V = CompressionPartView;

    open spec fn view(&self) -> CompressionPartView {
        CompressionPartView {
            compression_method: self.compression_method,
            number_of_levels: self.number_of_levels,
            value_by_levels: self.value_by_levels@,
        }
    }
}

/// A level and how often it repeats.
#[derive(Debug, Clone, Copy, PartialEq, Eq, Structural)]
pub struct LevelRepetition {
    pub level: u8,
    /// Two less than the number of cells in the run.
    pub repetition: u8,
}

impl Default for LevelRepetition {
    fn default() -> (entry: LevelRepetition)
        ensures
            entry == (LevelRepetition { level: 0, repetition: 0 }),
    {
        LevelRepetition { level: 0, repetition: 0 }
    }
}

/// The table of the runs that a single byte of the compressed grid can name.
#[derive(Debug, Clone, PartialEq, Eq)]
pub struct LevelRepetitionsPart {
    pub number_of_level_repetitions: u16,
    pub level_repetitions: Vec<LevelRepetition>,
}

/// A [`LevelRepetitionsPart`] with its entries as a sequence.
pub struct LevelRepetitionsPartView {
    pub number_of_level_repetitions: u16,
    pub level_repetitions: Seq<LevelRepetition>,
}

impl View for LevelRepetitionsPart {
    type V = LevelRepetitionsPartView;

    open spec fn view(&self) -> LevelRepetitionsPartView {
        LevelRepetitionsPartView {
            number_of_level_repetitions: self.number_of_level_repetitions,
            level_repetitions: self.level_repetitions@,
        }
    }
}

/// Whether the three bytes at position `at` are those that end a comment.
pub open spec fn is_comment_trailer(data: Seq<u8>, at: int) -> bool {
    data[at] == 0x0d && data[at + 1] == 0x0a && data[at + 2] == 0x00
}

/// The error for the bytes `first`, `second` and `third` at the end of a
/// comment: its text shows them as decimal numbers.
pub open spec fn trailer_error(first: u8, second: u8, third: u8) -> RapReaderErrorView {
    RapReaderErrorView::Unexpected(
        COMMENT_TRAILER_INVALID_HEAD@ + decimal(first as nat) + COMMENT_TRAILER_INVALID_BETWEEN@
            + decimal(second as nat) + COMMENT_TRAILER_INVALID_BETWEEN@ + decimal(third as nat)
            + COMMENT_TRAILER_INVALID_TAIL@,
    )
}

/// Builds the error for the bytes at the end of a comment.
fn trailer_error_of(first: u8, second: u8, third: u8) -> (error: RapReaderError)
    ensures
        error@ == trailer_error(first, second, third),
{
    let mut text = String::from_str(COMMENT_TRAILER_INVALID_HEAD);
    push_decimal(&mut text, first as u64);
    text.append(COMMENT_TRAILER_INVALID_BETWEEN);
    push_decimal(&mut text, second as u64);
    text.append(COMMENT_TRAILER_INVALID_BETWEEN);
    push_decimal(&mut text, third as u64);
    text.append(COMMENT_TRAILER_INVALID_TAIL);
    RapReaderError::Unexpected(text)
}

/// Reading the comment stored at position `at`: what comes of it, and where
/// the reader stands afterwards.
///
/// The comment is an identifier of 6 bytes, a version of 5 bytes and a
/// creator comment of 66 bytes, then the bytes `0D 0A 00`. The first field
/// that is missing, or is no UTF-8 text, decides the error. The reader stops
/// in front of a field that is missing and behind one that is refused.
pub open spec fn comment_part_read(data: Seq<u8>, at: int) -> (
    Result<CommentPartView, RapReaderErrorView>,
    int,
) {
    if !available(data, at, 6) {
        (Err(within(COMMENT_IDENTIFIER, short_read(6))), at)
    } else if text_at(data, at, 6) is None {
        (Err(within(COMMENT_IDENTIFIER, unexpected(INVALID_TEXT))), at + 6)
    } else if !available(data, at + 6, 5) {
        (Err(within(COMMENT_VERSION, short_read(5))), at + 6)
    } else if text_at(data, at + 6, 5) is None {
        (Err(within(COMMENT_VERSION, unexpected(INVALID_TEXT))), at + 11)
    } else if !available(data, at + 11, 66) {
        (Err(within(COMMENT_CREATOR, short_read(66))), at + 11)
    } else if text_at(data, at + 11, 66) is None {
        (Err(within(COMMENT_CREATOR, unexpected(INVALID_TEXT))), at + 77)
    } else if !available(data, at + 77, 3) {
        (Err(unexpected(COMMENT_TRAILER)), at + 77)
    } else if !is_comment_trailer(data, at + 77) {
        (Err(trailer_error(data[at + 77], data[at + 78], data[at + 79])), at + 80)
    } else {
        (
            Ok(
                CommentPartView {
                    identifier: text_at(data, at, 6)->0,
                    version: text_at(data, at + 6, 5)->0,
                    creator_comment: text_at(data, at + 11, 66)->0,
                },
            ),
            at + 80,
        )
    }
}

/// The comment stored at position `at`.
pub open spec fn comment_part_at(data: Seq<u8>, at: int) -> Result<
    CommentPartView,
    RapReaderErrorView,
> {
    comment_part_read(data, at).0
}

/// Where the reader stands once the comment at position `at` is read or
/// refused.
pub open spec fn comment_part_end(data: Seq<u8>, at: int) -> int {
    comment_part_read(data, at).1
}

/// Reads the comment.
pub fn read_comment_part(reader: &mut ByteReader) -> (res: Result<CommentPart, RapReaderError>)
    ensures
        final(reader).data == old(reader).data,
        final(reader).position == comment_part_end(old(reader).data@, old(reader).position as int),
        match res {
            Ok(part) => {
                &&& comment_part_at(old(reader).data@, old(reader).position as int) == Ok::<
                    _,
                    RapReaderErrorView,
                >(part@)
                &&& final(reader).position == old(reader).position + COMMENT_PART_LEN
            },
            Err(e) => comment_part_at(old(reader).data@, old(reader).position as int) == Err::<
                CommentPartView,
                _,
            >(e@),
        },
{
    let identifier = match read_str(reader, 6) {
        Ok(text) => text,
        Err(e) => return Err(RapReaderError::within(COMMENT_IDENTIFIER, e)),
    };
    let version = match read_str(reader, 5) {
        Ok(text) => text,
        Err(e) => return Err(RapReaderError::within(COMMENT_VERSION, e)),
    };
    let creator_comment = match read_str(reader, 66) {
        Ok(text) => text,
        Err(e) => return Err(RapReaderError::within(COMMENT_CREATOR, e)),
    };
    if !reader.has(3) {
        return Err(RapReaderError::unexpected(COMMENT_TRAILER));
    }
    let at: usize = reader.position as usize;
    let trailer: (u8, u8, u8) = (reader.data[at], reader.data[at + 1], reader.data[at + 2]);
    reader.position = reader.position + 3;
    if trailer.0 != 0x0d || trailer.1 != 0x0a || trailer.2 != 0x00 {
        return Err(trailer_error_of(trailer.0, trailer.1, trailer.2));
    }
    Ok(CommentPart { identifier, version, creator_comment })
}

/// Reading the grid definition stored at position `at`: what comes of it,
/// and where the reader stands afterwards.
///
/// The grid definition is two reserved bytes, the map type, which must be
/// [`MAP_TYPE`], the latitude and longitude of the first cell, the width and
/// height of a cell, the numbers of cells in a row and of rows, and 16
/// reserved bytes. The first field that cannot be read or is not accepted
/// decides the error; the reserved bytes need not be there. The reader stops
/// in front of a field that is missing and behind one that is refused.
pub open spec fn grid_definition_part_read(data: Seq<u8>, at: int) -> (
    Result<GridDefinitionPart, RapReaderErrorView>,
    int,
) {
    if at + 2 > u64::MAX {
        (Err(within(GRID_FIRST_RESERVED, unexpected(SEEK_OUT_OF_RANGE))), at)
    } else if !available(data, at + 2, 2) {
        (Err(within(GRID_MAP_TYPE, short_read(2))), at + 2)
    } else if u16_at(data, at + 2) != MAP_TYPE {
        (Err(RapReaderErrorView::MapTypeUnsupported(u16_at(data, at + 2))), at + 4)
    } else if !available(data, at + 4, 4) {
        (Err(within(GRID_LATITUDE, short_read(4))), at + 4)
    } else if !available(data, at + 8, 4) {
        (Err(within(GRID_LONGITUDE, short_read(4))), at + 8)
    } else if !available(data, at + 12, 4) {
        (Err(within(GRID_WIDTH, short_read(4))), at + 12)
    } else if !available(data, at + 16, 4) {
        (Err(within(GRID_HEIGHT, short_read(4))), at + 16)
    } else if !available(data, at + 20, 2) {
        (Err(within(GRID_H_COUNT, short_read(2))), at + 20)
    } else if !available(data, at + 22, 2) {
        (Err(within(GRID_V_COUNT, short_read(2))), at + 22)
    } else if at + 40 > u64::MAX {
        (Err(within(GRID_LAST_RESERVED, unexpected(SEEK_OUT_OF_RANGE))), at + 24)
    } else {
        (
            Ok(
                GridDefinitionPart {
                    map_type: u16_at(data, at + 2),
                    start_grid_latitude: u32_at(data, at + 4),
                    start_grid_longitude: u32_at(data, at + 8),
                    grid_width: u32_at(data, at + 12),
                    grid_height: u32_at(data, at + 16),
                    number_of_h_grids: u16_at(data, at + 20),
                    number_of_v_grids: u16_at(data, at + 22),
                },
            ),
            at + 40,
        )
    }
}

/// The grid definition stored at position `at`.
pub open spec fn grid_definition_part_at(data: Seq<u8>, at: int) -> Result<
    GridDefinitionPart,
    RapReaderErrorView,
> {
    grid_definition_part_read(data, at).0
}

/// Where the reader stands once the grid definition at position `at` is
/// read or refused.
pub open spec fn grid_definition_part_end(data: Seq<u8>, at: int) -> int {
    grid_definition_part_read(data, at).1
}

/// Reads the grid definition.
pub fn read_grid_definition_part(reader: &mut ByteReader) -> (res: Result<
    GridDefinitionPart,
    RapReaderError,
>)
    ensures
        final(reader).data == old(reader).data,
        final(reader).position == grid_definition_part_end(
            old(reader).data@,
            old(reader).position as int,
        ),
        match res {
            Ok(part) => {
                &&& grid_definition_part_at(old(reader).data@, old(reader).position as int)
                    == Ok::<_, RapReaderErrorView>(part)
                &&& part.map_type == MAP_TYPE
                &&& final(reader).position == old(reader).position + GRID_DEFINITION_PART_LEN
            },
            Err(e) => grid_definition_part_at(old(reader).data@, old(reader).position as int)
                == Err::<GridDefinitionPart, _>(e@),
        },
{
    match reader.skip(2) {
        Ok(_) => {},
        Err(e) => return Err(RapReaderError::within(GRID_FIRST_RESERVED, e)),
    }
    let map_type: u16 = match read_u16(reader) {
        Ok(value) => value,
        Err(e) => return Err(RapReaderError::within(GRID_MAP_TYPE, e)),
    };
    if map_type != MAP_TYPE {
        return Err(RapReaderError::MapTypeUnsupported(map_type));
    }
    let start_grid_latitude: u32 = match read_u32(reader) {
        Ok(value) => value,
        Err(e) => return Err(RapReaderError::within(GRID_LATITUDE, e)),
    };
    let start_grid_longitude: u32 = match read_u32(reader) {
        Ok(value) => value,
        Err(e) => return Err(RapReaderError::within(GRID_LONGITUDE, e)),
    };
    let grid_width: u32 = match read_u32(reader) {
        Ok(value) => value,
        Err(e) => return Err(RapReaderError::within(GRID_WIDTH, e)),
    };
    let grid_height: u32 = match read_u32(reader) {
        Ok(value) => value,
        Err(e) => return Err(RapReaderError::within(GRID_HEIGHT, e)),
    };
    let number_of_h_grids: u16 = match read_u16(reader) {
        Ok(value) => value,
        Err(e) => return Err(RapReaderError::within(GRID_H_COUNT, e)),
    };
    let number_of_v_grids: u16 = match read_u16(reader) {
        Ok(value) => value,
        Err(e) => return Err(RapReaderError::within(GRID_V_COUNT, e)),
    };
    match reader.skip(16) {
        Ok(_) => {},
        Err(e) => return Err(RapReaderError::within(GRID_LAST_RESERVED, e)),
    }
    Ok(
        GridDefinitionPart {
            map_type,
            start_grid_latitude,
            start_grid_longitude,
            grid_width,
            grid_height,
            number_of_h_grids,
            number_of_v_grids,
        },
    )
}

/// The `count` numbers of 16 bits stored from position `at` on.
pub open spec fn level_values_at(data: Seq<u8>, at: int, count: nat) -> Seq<u16> {
    Seq::new(count, |i: int| u16_at(data, at + 2 * i))
}

/// Reading the compression table stored at position `at`: what comes of it,
/// and where the reader stands afterwards.
///
/// The compression table is the method, which must be
/// [`COMPRESSION_METHOD`], the number of levels, and the value of each
/// level. Where values are missing, the reader stops behind the last value
/// that is whole.
pub open spec fn compression_part_read(data: Seq<u8>, at: int) -> (
    Result<CompressionPartView, RapReaderErrorView>,
    int,
) {
    if !available(data, at, 2) {
        (Err(within(COMPRESSION_CODE, short_read(2))), at)
    } else if u16_at(data, at) != COMPRESSION_METHOD {
        (Err(RapReaderErrorView::CompressionMethodUnsupported(u16_at(data, at))), at + 2)
    } else if !available(data, at + 2, 2) {
        (Err(within(LEVEL_COUNT, short_read(2))), at + 2)
    } else if !available(data, at + 4, 2 * u16_at(data, at + 2)) {
        (Err(within(LEVEL_VALUE, short_read(2))), at + 4 + 2 * ((data.len() - (at + 4)) / 2))
    } else {
        (
            Ok(
                CompressionPartView {
                    compression_method: u16_at(data, at),
                    number_of_levels: u16_at(data, at + 2),
                    value_by_levels: level_values_at(data, at + 4, u16_at(data, at + 2) as nat),
                },
            ),
            at + 4 + 2 * u16_at(data, at + 2),
        )
    }
}

/// The compression table stored at position `at`.
pub open spec fn compression_part_at(data: Seq<u8>, at: int) -> Result<
    CompressionPartView,
    RapReaderErrorView,
> {
    compression_part_read(data, at).0
}

/// Where the reader stands once the compression table at position `at` is
/// read or refused.
pub open spec fn compression_part_end(data: Seq<u8>, at: int) -> int {
    compression_part_read(data, at).1
}

/// The number of bytes of a compression table with `levels` levels.
pub open spec fn compression_part_len(levels: nat) -> int {
    4 + 2 * (levels as int)
}

/// Reads the compression table.
pub fn read_compression_part(reader: &mut ByteReader) -> (res: Result<
    CompressionPart,
    RapReaderError,
>)
    ensures
        final(reader).data == old(reader).data,
        final(reader).position == compression_part_end(
            old(reader).data@,
            old(reader).position as int,
        ),
        match res {
            Ok(part) => {
                &&& compression_part_at(old(reader).data@, old(reader).position as int) == Ok::<
                    _,
                    RapReaderErrorView,
                >(part@)
                &&& part.compression_method == COMPRESSION_METHOD
                &&& part@.value_by_levels.len() == part.number_of_levels
                &&& final(reader).position == old(reader).position + compression_part_len(
                    part.number_of_levels as nat,
                )
            },
            Err(e) => compression_part_at(old(reader).data@, old(reader).position as int) == Err::<
                CompressionPartView,
                _,
            >(e@),
        },
{
    let ghost data = reader.data@;
    let ghost start = reader.position as int;
    let compression_method: u16 = match read_u16(reader) {
        Ok(value) => value,
        Err(e) => return Err(RapReaderError::within(COMPRESSION_CODE, e)),
    };
    if compression_method != COMPRESSION_METHOD {
        return Err(RapReaderError::CompressionMethodUnsupported(compression_method));
    }
    let number_of_levels: u16 = match read_u16(reader) {
        Ok(value) => value,
        Err(e) => return Err(RapReaderError::within(LEVEL_COUNT, e)),
    };
    let mut value_by_levels: Vec<u16> = Vec::new();
    let mut i: u16 = 0;
    while i < number_of_levels
        invariant
            i <= number_of_levels,
            data == old(reader).data@,
            start == old(reader).position,
            available(data, start, 4),
            compression_method == u16_at(data, start),
            compression_method == COMPRESSION_METHOD,
            number_of_levels == u16_at(data, start + 2),
            reader.data == old(reader).data,
            reader.data@ == data,
            reader.position == start + 4 + 2 * i,
            reader.position <= data.len(),
            value_by_levels@ =~= level_values_at(data, start + 4, i as nat),
        decreases number_of_levels - i,
    {
        let value: u16 = match read_u16(reader) {
            Ok(value) => value,
            Err(e) => return Err(RapReaderError::within(LEVEL_VALUE, e)),
        };
        value_by_levels.push(value);
        i = i + 1;
    }
    Ok(CompressionPart { compression_method, number_of_levels, value_by_levels })
}

/// The `count` pairs of a level and a repetition stored from position `at` on.
pub open spec fn level_repetitions_at(data: Seq<u8>, at: int, count: nat) -> Seq<LevelRepetition> {
    Seq::new(
        count,
        |i: int| LevelRepetition { level: data[at + 2 * i], repetition: data[at + 2 * i + 1] },
    )
}

/// Reading the level repetition table stored at position `at`: what comes
/// of it, and where the reader stands afterwards.
///
/// The table is the number of entries, then for each entry one byte for the
/// level and one for the repetition. Where bytes of the entries are
/// missing, the reader stops at the end of the data, and the error names
/// the level or the repetition, whichever byte is the first that is missing.
pub open spec fn level_repetitions_part_read(data: Seq<u8>, at: int) -> (
    Result<LevelRepetitionsPartView, RapReaderErrorView>,
    int,
) {
    if !available(data, at, 2) {
        (Err(within(REPETITION_COUNT, short_read(2))), at)
    } else if !available(data, at + 2, 2 * u16_at(data, at)) {
        if (data.len() - (at + 2)) % 2 == 0 {
            (Err(within(REPETITION_LEVEL, short_read(1))), data.len() as int)
        } else {
            (Err(within(REPETITION_REPETITION, short_read(1))), data.len() as int)
        }
    } else {
        (
            Ok(
                LevelRepetitionsPartView {
                    number_of_level_repetitions: u16_at(data, at),
                    level_repetitions: level_repetitions_at(data, at + 2, u16_at(data, at) as nat),
                },
            ),
            at + 2 + 2 * u16_at(data, at),
        )
    }
}

/// The level repetition table stored at position `at`.
pub open spec fn level_repetitions_part_at(data: Seq<u8>, at: int) -> Result<
    LevelRepetitionsPartView,
    RapReaderErrorView,
> {
    level_repetitions_part_read(data, at).0
}

/// Where the reader stands once the level repetition table at position `at`
/// is read or refused.
pub open spec fn level_repetitions_part_end(data: Seq<u8>, at: int) -> int {
    level_repetitions_part_read(data, at).1
}

/// Reads the level repetition table.
pub fn read_level_repetitions_part(reader: &mut ByteReader) -> (res: Result<
    LevelRepetitionsPart,
    RapReaderError,
>)
    ensures
        final(reader).data == old(reader).data,
        final(reader).position == level_repetitions_part_end(
            old(reader).data@,
            old(reader).position as int,
        ),
        match res {
            Ok(part) => {
                &&& level_repetitions_part_at(old(reader).data@, old(reader).position as int)
                    == Ok::<_, RapReaderErrorView>(part@)
                &&& part@.level_repetitions.len() == part.number_of_level_repetitions
                &&& final(reader).position == old(reader).position + 2 + 2
                    * part.number_of_level_repetitions
            },
            Err(e) => level_repetitions_part_at(old(reader).data@, old(reader).position as int)
                == Err::<LevelRepetitionsPartView, _>(e@),
        },
{
    let ghost data = reader.data@;
    let ghost start = reader.position as int;
    let number_of_level_repetitions: u16 = match read_u16(reader) {
        Ok(value) => value,
        Err(e) => return Err(RapReaderError::within(REPETITION_COUNT, e)),
    };
    let mut level_repetitions: Vec<LevelRepetition> = Vec::new();
    let mut i: u16 = 0;
    while i < number_of_level_repetitions
        invariant
            i <= number_of_level_repetitions,
            data == old(reader).data@,
            start == old(reader).position,
            available(data, start, 2),
            number_of_level_repetitions == u16_at(data, start),
            reader.data == old(reader).data,
            reader.data@ == data,
            reader.position == start + 2 + 2 * i,
            reader.position <= data.len(),
            level_repetitions@ =~= level_repetitions_at(data, start + 2, i as nat),
        decreases number_of_level_repetitions - i,
    {
        let level: u8 = match read_u8(reader) {
            Ok(value) => value,
            Err(e) => return Err(RapReaderError::within(REPETITION_LEVEL, e)),
        };
        let repetition: u8 = match read_u8(reader) {
            Ok(value) => value,
            Err(e) => return Err(RapReaderError::within(REPETITION_REPETITION, e)),
        };
        level_repetitions.push(LevelRepetition { level, repetition });
        i = i + 1;
    }
    Ok(LevelRepetitionsPart { number_of_level_repetitions, level_repetitions })
}

} // verus!
