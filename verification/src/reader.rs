//! The document of a file: its header, parsed once, and the bytes that the
//! decoding sessions read.
use vstd::prelude::*;

use crate::bytes::{available, text_at, u16_at, u32_at, ByteReader};
use crate::datetime::CivilDateTime;
use crate::error::{RapReaderError, RapReaderErrorView};
use crate::header::{
    comment_part_at,
    compression_part_at,
    compression_part_len,
    grid_definition_part_at,
    is_comment_trailer,
    level_repetitions_part_at,
    read_comment_part,
    read_compression_part,
    read_grid_definition_part,
    read_level_repetitions_part,
    CommentPart,
    CommentPartView,
    CompressionPart,
    CompressionPartView,
    GridDefinitionPart,
    LevelRepetition,
    LevelRepetitionsPart,
    LevelRepetitionsPartView,
    COMMENT_PART_LEN,
    trailer_error,
    COMPRESSION_METHOD,
    MAP_TYPE,
    GRID_DEFINITION_PART_LEN,
};
use crate::index::{
    data_index_part_at,
    data_index_part_len,
    data_property_at,
    lemma_data_properties_entries,
    lemma_data_index_is_full,
    read_data_index_part,
    recorded_at,
    DataIndexPart,
    DataIndexPartView,
    DataProperty,
    ObservationTimes,
};
use crate::report::{pretty_print, whole_report};
use crate::values::{RapValueIterator, Session};

verus! {

/// The header of a file.
pub struct Document {
    pub comment: CommentPartView,
    pub index: DataIndexPartView,
    pub grid: GridDefinitionPart,
    pub compression: CompressionPartView,
    pub repetitions: LevelRepetitionsPartView,
}

/// The position of the grid definition behind an index of `entries` entries.
pub open spec fn grid_definition_position(entries: nat) -> int {
    COMMENT_PART_LEN + data_index_part_len(entries)
}

/// The position of the compression table behind an index of `entries` entries.
pub open spec fn compression_position(entries: nat) -> int {
    grid_definition_position(entries) + GRID_DEFINITION_PART_LEN
}

/// The position of the level repetition table behind an index of `entries`
/// entries and a compression table of `levels` levels.
pub open spec fn level_repetitions_position(entries: nat, levels: nat) -> int {
    compression_position(entries) + compression_part_len(levels)
}

/// The header that `data` starts with: the comment, the data index, the
/// grid definition, the compression table and the level repetition table,
/// one behind the other. The first part that cannot be read decides the
/// error, and nothing behind it is looked at.
pub open spec fn document_at(data: Seq<u8>) -> Result<Document, RapReaderErrorView> {
    match comment_part_at(data, 0) {
        Err(e) => Err(e),
        Ok(comment) => match data_index_part_at(data, COMMENT_PART_LEN as int) {
            Err(e) => Err(e),
            Ok(index) => {
                let entries = index.data_properties.len();
                match grid_definition_part_at(data, grid_definition_position(entries)) {
                    Err(e) => Err(e),
                    Ok(grid) => match compression_part_at(data, compression_position(entries)) {
                        Err(e) => Err(e),
                        Ok(compression) => match level_repetitions_part_at(
                            data,
                            level_repetitions_position(
                                entries,
                                compression.number_of_levels as nat,
                            ),
                        ) {
                            Err(e) => Err(e),
                            Ok(repetitions) => Ok(
                                Document { comment, index, grid, compression, repetitions },
                            ),
                        },
                    },
                }
            },
        },
    }
}

/// A file with its header parsed.
///
/// The header is read once and never changes. Each decoding session gets a
/// cursor of its own into the bytes and reads the two tables where they are.
pub struct RapReader {
    /// The bytes of the file.
    data: Vec<u8>,
    comment_part: CommentPart,
    data_index_part: DataIndexPart,
    grid_definition_part: GridDefinitionPart,
    compression_part: CompressionPart,
    level_repetitions_part: LevelRepetitionsPart,
}

impl View for RapReader {
    type V = Document;

    closed spec fn view(&self) -> Document {
        Document {
            comment: self.comment_part@,
            index: self.data_index_part@,
            grid: self.grid_definition_part,
            compression: self.compression_part@,
            repetitions: self.level_repetitions_part@,
        }
    }
}

impl RapReader {
    /// The bytes of the file.
    pub closed spec fn bytes(&self) -> Seq<u8> {
        self.data@
    }

    /// The header is the one that the bytes start with.
    #[verifier::type_invariant]
    spec fn is_parsed(&self) -> bool {
        document_at(self.data@) == Ok::<_, RapReaderErrorView>(self@)
    }

    /// What a session on the grid of `entry` works on: the compressed grid
    /// starts four bytes behind the start of the data record.
    pub open spec fn session_of(&self, entry: DataProperty) -> Session {
        Session {
            data: self.bytes(),
            start: entry.data_start_position + 4,
            size: entry.compressed_data_size as int,
            max_latitude: self@.grid.start_grid_latitude,
            min_longitude: self@.grid.start_grid_longitude,
            number_of_h_grids: self@.grid.number_of_h_grids,
            grid_height: self@.grid.grid_height,
            grid_width: self@.grid.grid_width,
            levels: self@.compression.value_by_levels,
            table: self@.repetitions.level_repetitions,
        }
    }

    /// Parses the header of the file with the bytes `data`.
    pub fn new(data: Vec<u8>) -> (res: Result<RapReader, RapReaderError>)
        ensures
            match res {
                Ok(reader) => document_at(data@) == Ok::<_, RapReaderErrorView>(reader@)
                    && reader.bytes() == data@,
                Err(e) => document_at(data@) == Err::<Document, _>(e@),
            },
    {
        let mut reader = ByteReader::new(data.as_slice());
        let comment_part = match read_comment_part(&mut reader) {
            Ok(part) => part,
            Err(e) => return Err(e),
        };
        let data_index_part = match read_data_index_part(&mut reader) {
            Ok(part) => part,
            Err(e) => return Err(e),
        };
        let grid_definition_part = match read_grid_definition_part(&mut reader) {
            Ok(part) => part,
            Err(e) => return Err(e),
        };
        let compression_part = match read_compression_part(&mut reader) {
            Ok(part) => part,
            Err(e) => return Err(e),
        };
        let level_repetitions_part = match read_level_repetitions_part(&mut reader) {
            Ok(part) => part,
            Err(e) => return Err(e),
        };
        Ok(
            RapReader {
                data,
                comment_part,
                data_index_part,
                grid_definition_part,
                compression_part,
                level_repetitions_part,
            },
        )
    }

    /// The identifier of the comment.
    pub fn identifier(&self) -> (text: &str)
        ensures
            text@ == self@.comment.identifier,
    {
        self.comment_part.identifier.as_str()
    }

    /// The version of the comment.
    pub fn version(&self) -> (text: &str)
        ensures
            text@ == self@.comment.version,
    {
        self.comment_part.version.as_str()
    }

    /// The creator comment.
    pub fn creator_comment(&self) -> (text: &str)
        ensures
            text@ == self@.comment.creator_comment,
    {
        self.comment_part.creator_comment.as_str()
    }

    /// The number of observations: 24 for one on every full hour, 48 for one
    /// every 30 minutes. The index has that many entries.
    pub fn number_of_data(&self) -> (count: u32)
        ensures
            count == self@.index.number_of_data.count(),
            count == self@.index.data_properties.len(),
            count == 24 || count == 48,
    {
        proof {
            use_type_invariant(self);
            lemma_data_index_is_full(self.data@, COMMENT_PART_LEN as int);
        }
        self.data_index_part.number_of_data.count()
    }

    /// The entries of the data index, in the order of the file.
    pub fn data_properties(&self) -> (entries: &[DataProperty])
        ensures
            entries@ == self@.index.data_properties,
    {
        self.data_index_part.data_properties.as_slice()
    }

    /// The map type, which is that of a grid of latitudes and longitudes.
    pub fn map_type(&self) -> (code: u16)
        ensures
            code == self@.grid.map_type,
            code == MAP_TYPE,
    {
        proof {
            use_type_invariant(self);
        }
        self.grid_definition_part.map_type
    }

    /// The latitude of the north-west corner, in millionths of a degree.
    pub fn grid_start_latitude(&self) -> (latitude: u32)
        ensures
            latitude == self@.grid.start_grid_latitude,
    {
        self.grid_definition_part.start_grid_latitude
    }

    /// The longitude of the north-west corner, in millionths of a degree.
    pub fn grid_start_longitude(&self) -> (longitude: u32)
        ensures
            longitude == self@.grid.start_grid_longitude,
    {
        self.grid_definition_part.start_grid_longitude
    }

    /// The width of a cell, in millionths of a degree.
    pub fn grid_width(&self) -> (width: u32)
        ensures
            width == self@.grid.grid_width,
    {
        self.grid_definition_part.grid_width
    }

    /// The height of a cell, in millionths of a degree.
    pub fn grid_height(&self) -> (height: u32)
        ensures
            height == self@.grid.grid_height,
    {
        self.grid_definition_part.grid_height
    }

    /// The number of cells in a row.
    pub fn number_of_h_grids(&self) -> (count: u16)
        ensures
            count == self@.grid.number_of_h_grids,
    {
        self.grid_definition_part.number_of_h_grids
    }

    /// The number of rows.
    pub fn number_of_v_grids(&self) -> (count: u16)
        ensures
            count == self@.grid.number_of_v_grids,
    {
        self.grid_definition_part.number_of_v_grids
    }

    /// The compression method, which is run-length coding.
    pub fn compression_method(&self) -> (code: u16)
        ensures
            code == self@.compression.compression_method,
            code == COMPRESSION_METHOD,
    {
        proof {
            use_type_invariant(self);
        }
        self.compression_part.compression_method
    }

    /// The number of levels.
    pub fn number_of_levels(&self) -> (count: u16)
        ensures
            count == self@.compression.number_of_levels,
            count == self@.compression.value_by_levels.len(),
    {
        proof {
            use_type_invariant(self);
        }
        self.compression_part.number_of_levels
    }

    /// The value of each level, with the level as the index.
    pub fn value_by_levels(&self) -> (values: &[u16])
        ensures
            values@ == self@.compression.value_by_levels,
    {
        self.compression_part.value_by_levels.as_slice()
    }

    /// The number of entries of the level repetition table.
    pub fn number_of_level_repetitions(&self) -> (count: u16)
        ensures
            count == self@.repetitions.number_of_level_repetitions,
            count == self@.repetitions.level_repetitions.len(),
    {
        proof {
            use_type_invariant(self);
        }
        self.level_repetitions_part.number_of_level_repetitions
    }

    /// The level repetition table.
    pub fn level_repetitions(&self) -> (entries: &[LevelRepetition])
        ensures
            entries@ == self@.repetitions.level_repetitions,
    {
        self.level_repetitions_part.level_repetitions.as_slice()
    }

    /// What the file records as a report for people: the header, then the
    /// data records. There is no report where an observation time has no
    /// text.
    pub fn pretty_print(&self) -> (text: Option<String>)
        ensures
            match text {
                Some(t) => whole_report(self@) == Some(t@),
                None => whole_report(self@) is None,
            },
    {
        pretty_print(self)
    }

    /// Starts a decoding session on the grid observed at exactly `dt`.
    ///
    /// The session is that of the first index entry with this time; where
    /// no entry has it, there is no session.
    pub fn value_iterator(&self, dt: CivilDateTime) -> (res: Result<
        RapValueIterator<'_>,
        RapReaderError,
    >)
        ensures
            match res {
                Ok(session) => recorded_at(self@.index.data_properties, dt) is Some
                    && session.session() == self.session_of(
                    recorded_at(self@.index.data_properties, dt)->0,
                ) && session.remaining() == session.session().outcomes() && session.wf()
                    && session.pulled() == 0 && session.consumed() == 0 && session.pending() == 0
                    && !session.failed(),
                Err(e) => recorded_at(self@.index.data_properties, dt) is None
                    && e@ == RapReaderErrorView::DataDoesNotRecorded(dt),
            },
    {
        let dp = match self.data_index_part.lookup(dt) {
            Ok(property) => property,
            Err(e) => return Err(e),
        };
        // The compressed grid follows the four bytes of its size.
        let reader = ByteReader::at(self.data.as_slice(), dp.data_start_position as u64 + 4);
        Ok(
            RapValueIterator::new(
                reader,
                dp.compressed_data_size as usize,
                self.grid_start_latitude(),
                self.grid_start_longitude(),
                self.number_of_h_grids(),
                self.grid_height(),
                self.grid_width(),
                self.value_by_levels(),
                self.level_repetitions(),
            ),
        )
    }
}

/// A comment that does not end with the bytes `0D 0A 00` makes a layout
/// violation of the file, and the bytes behind the comment have no part in
/// it: another file with the same comment is refused in the same way. Where
/// the three texts of the comment can be read, the error names these three
/// bytes.
pub proof fn lemma_trailer_is_checked_before_the_index(data: Seq<u8>, other: Seq<u8>)
    requires
        available(data, 0, COMMENT_PART_LEN as int),
        !is_comment_trailer(data, 77),
        available(other, 0, COMMENT_PART_LEN as int),
        other.subrange(0, COMMENT_PART_LEN as int) == data.subrange(0, COMMENT_PART_LEN as int),
    ensures
        document_at(data) matches Err(RapReaderErrorView::Unexpected(_)),
        document_at(other) == document_at(data),
        text_at(data, 0, 6) is Some && text_at(data, 6, 5) is Some && text_at(data, 11, 66) is Some
            ==> document_at(data) == Err::<Document, _>(
            trailer_error(data[77], data[78], data[79]),
        ),
{
    lemma_same_comment(data, other);
}

/// A number of observations other than 24 and 48 is refused as such behind
/// a comment that can be read, and the bytes behind the number have no part
/// in it: another file that starts with the same comment and number is
/// refused in the same way.
pub proof fn lemma_observation_count_is_checked_before_the_grid(data: Seq<u8>, other: Seq<u8>)
    requires
        comment_part_at(data, 0) is Ok,
        available(data, COMMENT_PART_LEN as int, 4),
        u32_at(data, COMMENT_PART_LEN as int) != 24,
        u32_at(data, COMMENT_PART_LEN as int) != 48,
        available(other, 0, COMMENT_PART_LEN + 4),
        other.subrange(0, COMMENT_PART_LEN + 4) == data.subrange(0, COMMENT_PART_LEN + 4),
    ensures
        document_at(data) == Err::<Document, _>(
            RapReaderErrorView::ObservationIntervalUnsupported(
                u32_at(data, COMMENT_PART_LEN as int),
            ),
        ),
        document_at(other) == document_at(data),
{
    let head = data.subrange(0, COMMENT_PART_LEN + 4);
    assert(forall|i: int| 0 <= i < 84 ==> other[i] == other.subrange(0, 84)[i]);
    assert(other.subrange(0, 80) =~= data.subrange(0, 80));
    lemma_same_comment(data, other);
}

/// Where the bytes of a file hold what its document says: the number of
/// observations behind the 80 bytes of the comment, the index entries of 20
/// bytes each behind it, then the grid definition of 40 bytes, the
/// compression table with two bytes for each level, and the level repetition
/// table with two bytes for each entry.
pub proof fn lemma_document_layout(data: Seq<u8>)
    requires
        document_at(data) is Ok,
    ensures
        ({
            let document = document_at(data)->Ok_0;
            let entries = document.index.data_properties;
            let grid_at = 84 + 20 * (entries.len() as int);
            let levels = document.compression.value_by_levels;
            let table_at = grid_at + 40 + 4 + 2 * (levels.len() as int);
            let table = document.repetitions.level_repetitions;
            &&& is_comment_trailer(data, 77)
            &&& entries.len() == u32_at(data, 80)
            &&& entries.len() == 24 || entries.len() == 48
            &&& forall|i: int|
                0 <= i < entries.len() ==> data_property_at(data, 84 + 20 * i) == Ok::<
                    _,
                    RapReaderErrorView,
                >(#[trigger] entries[i])
            &&& document.grid.map_type == u16_at(data, grid_at + 2)
            &&& document.grid.map_type == MAP_TYPE
            &&& document.grid.start_grid_latitude == u32_at(data, grid_at + 4)
            &&& document.grid.start_grid_longitude == u32_at(data, grid_at + 8)
            &&& document.grid.grid_width == u32_at(data, grid_at + 12)
            &&& document.grid.grid_height == u32_at(data, grid_at + 16)
            &&& document.grid.number_of_h_grids == u16_at(data, grid_at + 20)
            &&& document.grid.number_of_v_grids == u16_at(data, grid_at + 22)
            &&& document.compression.compression_method == u16_at(data, grid_at + 40)
            &&& document.compression.compression_method == COMPRESSION_METHOD
            &&& levels.len() == u16_at(data, grid_at + 42)
            &&& levels.len() == document.compression.number_of_levels
            &&& forall|level: int|
                0 <= level < levels.len() ==> #[trigger] levels[level] == u16_at(
                    data,
                    grid_at + 44 + 2 * level,
                )
            &&& table.len() == u16_at(data, table_at)
            &&& table.len() == document.repetitions.number_of_level_repetitions
            &&& forall|i: int|
                0 <= i < table.len() ==> (#[trigger] table[i]).level == data[table_at + 2 + 2 * i]
                    && table[i].repetition == data[table_at + 3 + 2 * i]
            &&& table_at + 2 + 2 * table.len() <= data.len()
        }),
{
    let times = ObservationTimes::spec_try_from(u32_at(data, 80))->Ok_0;
    lemma_data_properties_entries(data, 84, times.count() as nat);
}

/// Two files with the same first 80 bytes have the same comment.
proof fn lemma_same_comment(data: Seq<u8>, other: Seq<u8>)
    requires
        available(data, 0, COMMENT_PART_LEN as int),
        available(other, 0, COMMENT_PART_LEN as int),
        other.subrange(0, COMMENT_PART_LEN as int) == data.subrange(0, COMMENT_PART_LEN as int),
    ensures
        comment_part_at(other, 0) == comment_part_at(data, 0),
{
    let head = data.subrange(0, 80);
    assert(forall|i: int| 0 <= i < 80 ==> other[i] == other.subrange(0, 80)[i]);
    assert(other.subrange(0, 6) =~= data.subrange(0, 6));
    assert(other.subrange(6, 11) =~= data.subrange(6, 11));
    assert(other.subrange(11, 77) =~= data.subrange(11, 77));
}

} // verus!
