//! The grid decoder: expands the run-length coded grid of one observation
//! into one value per cell, from the north-west corner eastwards and then
//! row by row to the south.
use vstd::prelude::*;
use vstd::string::StringExecFns;

use crate::bytes::{available, read_u8, ByteReader};
use crate::error::{unexpected, RapReaderError, RapReaderErrorView};
use crate::text::{hex, push_hex};
use crate::header::LevelRepetition;

verus! {

// The texts of the errors of a decoding session.
pub const DATA_BYTE: &'static str = "データ部の読み込みに失敗しました。";

pub const TABLE_INDEX: &'static str =
    "データ部にレベル・反復表にない要素を指すバイトが見つかりました。";

pub const LEVEL_INDEX: &'static str = "データ部に観測値表にないレベルが見つかりました。";

/// What the text of the error for a byte that starts no run starts with, in
/// front of the byte in hexadecimal digits.
pub const UNKNOWN_RUN_HEAD: &'static str = "データ部に判別できないバイトが見つかりました。`0x";

/// The level value that stands for no measurement.
pub const NO_DATA: u16 = 0xFFFF;

/// A run of cells with the same value.
#[derive(Debug, Clone, Copy, PartialEq, Eq, Structural)]
pub struct ExpandedValue {
    /// The value of the level that the run names.
    pub value: u16,
    /// The number of cells in the run.
    pub number_of_repetitions: u16,
}

/// A cell of the grid and what was measured there.
#[derive(Debug, Clone, Copy, PartialEq, Eq)]
pub struct LocationValue {
    /// The latitude in millionths of a degree.
    pub latitude: u32,
    /// The longitude in millionths of a degree.
    pub longitude: u32,
    /// The measurement in tenths of a millimetre, or nothing where the
    /// level of the cell stands for no measurement.
    pub value: Option<u16>,
}

/// What a level value says of a cell: nothing where it is [`NO_DATA`].
pub open spec fn measurement(value: u16) -> Option<u16> {
    if value < NO_DATA {
        Some(value)
    } else {
        None
    }
}

/// Whether the run that starts with the byte `lead` has a second byte.
pub open spec fn has_second_byte(lead: u8) -> bool {
    lead & 0xE0 == 0xC0 || lead == 0xFE
}

/// The number of bytes of the run that starts with the byte `lead`.
pub open spec fn token_len(lead: u8) -> int {
    if has_second_byte(lead) {
        2
    } else {
        1
    }
}

/// The value of level `level`, if the compression table has it.
pub open spec fn level_value(levels: Seq<u16>, level: int, repetitions: int) -> Result<
    ExpandedValue,
    RapReaderErrorView,
> {
    if 0 <= level < levels.len() {
        Ok(ExpandedValue { value: levels[level], number_of_repetitions: repetitions as u16 })
    } else {
        Err(unexpected(LEVEL_INDEX))
    }
}

/// The error for the byte `lead`, which starts no run: its text shows the
/// byte in hexadecimal digits.
pub open spec fn unknown_run_error(lead: u8) -> RapReaderErrorView {
    RapReaderErrorView::Unexpected(UNKNOWN_RUN_HEAD@ + hex(lead as nat))
}

/// Builds the error for a byte that starts no run.
fn unknown_run_error_of(lead: u8) -> (error: RapReaderError)
    ensures
        error@ == unknown_run_error(lead),
{
    let mut text = String::from_str(UNKNOWN_RUN_HEAD);
    push_hex(&mut text, lead as u64);
    RapReaderError::Unexpected(text)
}

/// Reading the run stored at position `at` of `data`: what comes of it, and
/// how many bytes are used for it.
///
/// The first byte `b` decides the form of the run, in this order:
/// - `b & 0x80 == 0`: entry `b` of the level repetition table gives the
///   level and a repetition; the run has two cells more than the repetition.
/// - `b & 0xE0 == 0xC0`: the level is `b & 0x1F` and the next byte is the
///   repetition; the run has two cells more than the repetition.
/// - `b & 0xC0 == 0x80`: the level is `b & 0x3F`, for a single cell.
/// - `b == 0xFE`: the next byte is the level, for a single cell.
///
/// Any other first byte starts no run. A level is looked up as soon as it
/// is known. A byte that is missing is not used; every byte that is looked
/// at is.
pub open spec fn token_read(
    data: Seq<u8>,
    at: int,
    levels: Seq<u16>,
    table: Seq<LevelRepetition>,
) -> (Result<ExpandedValue, RapReaderErrorView>, int) {
    if !available(data, at, 1) {
        (Err(unexpected(DATA_BYTE)), 0)
    } else {
        let lead = data[at];
        if lead & 0x80 == 0x00 {
            if lead < table.len() {
                (
                    level_value(
                        levels,
                        table[lead as int].level as int,
                        table[lead as int].repetition + 2,
                    ),
                    1,
                )
            } else {
                (Err(unexpected(TABLE_INDEX)), 1)
            }
        } else if lead & 0xE0 == 0xC0 {
            if !((lead & 0x1F) < levels.len()) {
                (Err(unexpected(LEVEL_INDEX)), 1)
            } else if !available(data, at + 1, 1) {
                (Err(unexpected(DATA_BYTE)), 1)
            } else {
                (level_value(levels, (lead & 0x1F) as int, data[at + 1] + 2), 2)
            }
        } else if lead & 0xC0 == 0x80 {
            (level_value(levels, (lead & 0x3F) as int, 1), 1)
        } else if lead == 0xFE {
            if !available(data, at + 1, 1) {
                (Err(unexpected(DATA_BYTE)), 1)
            } else {
                (level_value(levels, data[at + 1] as int, 1), 2)
            }
        } else {
            (Err(unknown_run_error(lead)), 1)
        }
    }
}

/// The run stored at position `at` of `data`.
pub open spec fn token_at(
    data: Seq<u8>,
    at: int,
    levels: Seq<u16>,
    table: Seq<LevelRepetition>,
) -> Result<ExpandedValue, RapReaderErrorView> {
    token_read(data, at, levels, table).0
}

/// The number of bytes that are used for the run stored at position `at`
/// of `data`, whether it can be read or not.
pub open spec fn token_taken(
    data: Seq<u8>,
    at: int,
    levels: Seq<u16>,
    table: Seq<LevelRepetition>,
) -> int {
    token_read(data, at, levels, table).1
}

/// The values of the cells of `runs`, run after run.
pub open spec fn expanded(runs: Seq<ExpandedValue>) -> Seq<u16>
    decreases runs.len(),
{
    if runs.len() == 0 {
        Seq::empty()
    } else {
        Seq::new(runs[0].number_of_repetitions as nat, |i: int| runs[0].value) + expanded(
            runs.drop_first(),
        )
    }
}

/// The number of cells of `runs`.
pub open spec fn run_length(runs: Seq<ExpandedValue>) -> nat
    decreases runs.len(),
{
    if runs.len() == 0 {
        0
    } else {
        runs[0].number_of_repetitions as nat + run_length(runs.drop_first())
    }
}

/// `x` reduced to the range of `u32`, as arithmetic on `u32` that wraps does.
pub open spec fn wrapped(x: int) -> u32 {
    (x % 0x1_0000_0000) as u32
}

/// What a decoding session works on: the bytes of the file with the place
/// and size of the compressed grid, the geometry of the grid, and the two
/// tables of the header.
pub struct Session {
    /// The bytes of the file.
    pub data: Seq<u8>,
    /// The position of the first byte of the compressed grid.
    pub start: int,
    /// The number of bytes of the compressed grid.
    pub size: int,
    /// The latitude of the first cell.
    pub max_latitude: u32,
    /// The longitude of the first cell.
    pub min_longitude: u32,
    /// The number of cells in a row.
    pub number_of_h_grids: u16,
    /// The step from a row to the next one to the south.
    pub grid_height: u32,
    /// The step from a cell to the next one to the east.
    pub grid_width: u32,
    /// The value of each level.
    pub levels: Seq<u16>,
    /// The level repetition table.
    pub table: Seq<LevelRepetition>,
}

impl Session {
    /// The run that starts behind the first `consumed` bytes of the grid.
    pub open spec fn run_behind(self, consumed: int) -> Result<ExpandedValue, RapReaderErrorView> {
        token_at(self.data, self.start + consumed, self.levels, self.table)
    }

    /// The number of bytes of the run that starts behind the first
    /// `consumed` bytes of the grid.
    pub open spec fn len_behind(self, consumed: int) -> int {
        token_len(self.data[self.start + consumed])
    }

    /// The number of bytes that are used for the run that starts behind the
    /// first `consumed` bytes of the grid, whether it can be read or not.
    pub open spec fn taken_behind(self, consumed: int) -> int {
        token_taken(self.data, self.start + consumed, self.levels, self.table)
    }

    /// The number of bytes of the grid that are not used up yet.
    pub open spec fn left(self, consumed: int) -> nat {
        if consumed < self.size {
            (self.size - consumed) as nat
        } else {
            0
        }
    }

    /// The runs that are read once `consumed` bytes of the grid are used up.
    /// A run is started as long as fewer than `size` bytes are used up, and
    /// is then read whole; reading ends at the first run that cannot be read.
    pub open spec fn runs_from(self, consumed: int) -> Seq<ExpandedValue>
        decreases self.left(consumed),
    {
        if consumed >= self.size {
            Seq::empty()
        } else {
            match self.run_behind(consumed) {
                Ok(run) => seq![run] + self.runs_from(consumed + self.len_behind(consumed)),
                Err(_) => Seq::empty(),
            }
        }
    }

    /// The error that ends the reading of runs once `consumed` bytes of the
    /// grid are used up, if there is one.
    pub open spec fn fault_from(self, consumed: int) -> Option<RapReaderErrorView>
        decreases self.left(consumed),
    {
        if consumed >= self.size {
            None
        } else {
            match self.run_behind(consumed) {
                Ok(_) => self.fault_from(consumed + self.len_behind(consumed)),
                Err(e) => Some(e),
            }
        }
    }

    /// The number of bytes that are used up once no run is read any more,
    /// starting with `consumed` bytes used up: the bytes of all runs that
    /// are read, and those that were looked at of a run that cannot be read.
    pub open spec fn used_from(self, consumed: int) -> int
        decreases self.left(consumed),
    {
        if consumed >= self.size {
            consumed
        } else {
            match self.run_behind(consumed) {
                Ok(_) => self.used_from(consumed + self.len_behind(consumed)),
                Err(_) => consumed + self.taken_behind(consumed),
            }
        }
    }

    /// The number of bytes that a session uses in all.
    pub open spec fn used(self) -> int {
        self.used_from(0)
    }

    /// The runs of the grid.
    pub open spec fn runs(self) -> Seq<ExpandedValue> {
        self.runs_from(0)
    }

    /// The error that ends the grid, if there is one.
    pub open spec fn fault(self) -> Option<RapReaderErrorView> {
        self.fault_from(0)
    }

    /// The level values of the cells of the grid, in the order of the file.
    pub open spec fn values(self) -> Seq<u16> {
        expanded(self.runs())
    }

    /// The row of cell `k`, counted from 0 in the north. A grid without a
    /// width starts a new row with every cell.
    pub open spec fn row_of(self, k: int) -> int {
        if self.number_of_h_grids == 0 {
            k
        } else {
            k / (self.number_of_h_grids as int)
        }
    }

    /// The column of cell `k`, counted from 0 in the west.
    pub open spec fn column_of(self, k: int) -> int {
        if self.number_of_h_grids == 0 {
            0
        } else {
            k % (self.number_of_h_grids as int)
        }
    }

    /// The latitude of cell `k`.
    pub open spec fn latitude_of(self, k: int) -> u32 {
        wrapped(self.max_latitude - self.row_of(k) * self.grid_height)
    }

    /// The longitude of cell `k`.
    pub open spec fn longitude_of(self, k: int) -> u32 {
        wrapped(self.min_longitude + self.column_of(k) * self.grid_width)
    }

    /// Cell `k` with the level value `value`.
    pub open spec fn cell(self, k: int, value: u16) -> LocationValue {
        LocationValue {
            latitude: self.latitude_of(k),
            longitude: self.longitude_of(k),
            value: measurement(value),
        }
    }

    /// Everything the session yields: the cells of the grid in the order of
    /// the file and, where reading ends on an error, that error behind them.
    pub open spec fn outcomes(self) -> Seq<Result<LocationValue, RapReaderErrorView>> {
        let values = self.values();
        let cells = Seq::new(values.len(), |k: int| Ok(self.cell(k, values[k])));
        match self.fault() {
            Some(e) => cells.push(Err(e)),
            None => cells,
        }
    }
}

/// What one pull of a session gives: a cell, or the error that ends it.
pub type Outcome = Result<LocationValue, RapReaderErrorView>;

/// The values of `runs` start with the cells of its first run.
proof fn lemma_expanded_front(run: ExpandedValue, rest: Seq<ExpandedValue>)
    ensures
        expanded(seq![run] + rest) =~= Seq::new(
            run.number_of_repetitions as nat,
            |i: int| run.value,
        ) + expanded(rest),
        run_length(seq![run] + rest) == run.number_of_repetitions + run_length(rest),
{
    assert((seq![run] + rest).drop_first() =~= rest);
}

/// The number of values of `runs` is the number of its cells.
pub proof fn lemma_expanded_len(runs: Seq<ExpandedValue>)
    ensures
        expanded(runs).len() == run_length(runs),
    decreases runs.len(),
{
    if runs.len() > 0 {
        lemma_expanded_len(runs.drop_first());
    }
}

/// Arithmetic on `u32` that wraps keeps a reduced number reduced.
proof fn lemma_wrapped_step(x: int, y: u32)
    ensures
        vstd::wrapping::u32_specs::wrapping_add(wrapped(x), y) == wrapped(x + y),
        vstd::wrapping::u32_specs::wrapping_sub(wrapped(x), y) == wrapped(x - y),
{
}

impl Session {
    /// From a cell to the next: one column to the east, or to the first
    /// column of the next row where the row is full.
    proof fn lemma_next_cell(self, k: int)
        requires
            0 <= k,
        ensures
            0 <= self.column_of(k),
            0 <= self.row_of(k),
            self.number_of_h_grids > 0 ==> self.column_of(k) < self.number_of_h_grids,
            self.column_of(k) + 1 < self.number_of_h_grids ==> self.row_of(k + 1) == self.row_of(k)
                && self.column_of(k + 1) == self.column_of(k) + 1,
            self.column_of(k) + 1 >= self.number_of_h_grids ==> self.row_of(k + 1) == self.row_of(
                k,
            ) + 1 && self.column_of(k + 1) == 0,
    {
        let h = self.number_of_h_grids as int;
        if h > 0 {
            let q = k / h;
            let r = k % h;
            vstd::arithmetic::div_mod::lemma_fundamental_div_mod(k, h);
            vstd::arithmetic::div_mod::lemma_mod_pos_bound(k, h);
            vstd::arithmetic::div_mod::lemma_div_pos_is_pos(k, h);
            if r + 1 < h {
                assert(k + 1 == q * h + (r + 1)) by (nonlinear_arith)
                    requires
                        k == h * q + r,
                ;
                vstd::arithmetic::div_mod::lemma_fundamental_div_mod_converse(k + 1, h, q, r + 1);
            } else {
                assert(k + 1 == (q + 1) * h + 0) by (nonlinear_arith)
                    requires
                        k == h * q + r,
                        r + 1 == h,
                ;
                vstd::arithmetic::div_mod::lemma_fundamental_div_mod_converse(k + 1, h, q + 1, 0);
            }
        }
    }

    /// Where a run can be read, the values behind it are its cells and then
    /// the values of the runs that follow.
    proof fn lemma_fetch(self, k: int, consumed: int, run: ExpandedValue)
        requires
            0 <= k <= self.values().len(),
            consumed < self.size,
            self.run_behind(consumed) == Ok::<_, RapReaderErrorView>(run),
            self.values().skip(k) == expanded(self.runs_from(consumed)),
        ensures
            k + run.number_of_repetitions <= self.values().len(),
            forall|j: int|
                k <= j < k + run.number_of_repetitions ==> #[trigger] self.values()[j] == run.value,
            self.values().skip(k + run.number_of_repetitions) == expanded(
                self.runs_from(consumed + self.len_behind(consumed)),
            ),
            self.fault_from(consumed) == self.fault_from(consumed + self.len_behind(consumed)),
            self.used_from(consumed) == self.used_from(consumed + self.len_behind(consumed)),
            self.taken_behind(consumed) == self.len_behind(consumed),
    {
        lemma_forms_of_a_run(self.data[self.start + consumed]);
        let rest = self.runs_from(consumed + self.len_behind(consumed));
        let values = self.values();
        let n = run.number_of_repetitions as int;
        lemma_expanded_front(run, rest);
        let front = Seq::new(n as nat, |i: int| run.value);
        assert(values.skip(k).len() == n + expanded(rest).len());
        assert forall|j: int| k <= j < k + n implies #[trigger] values[j] == run.value by {
            assert(values[j] == values.skip(k)[j - k]);
        }
        assert(values.skip(k + n) =~= expanded(rest)) by {
            assert forall|i: int| 0 <= i < expanded(rest).len() implies values.skip(k + n)[i]
                == expanded(rest)[i] by {
                assert(values.skip(k + n)[i] == values.skip(k)[n + i]);
            }
        }
    }
}

/// A decoding session: yields the cells of one grid, one at each pull.
///
/// A session runs once, forwards. Where a run cannot be read, the session
/// yields the error in place of the next cell and is then at its end; the
/// cells that were yielded before stay valid.
pub struct RapValueIterator<'a> {
    /// The bytes of the file, at the next byte of the compressed grid.
    reader: ByteReader<'a>,
    /// The number of bytes of the compressed grid.
    compressed_data_bytes: usize,
    /// The longitude of the first cell of every row.
    min_longitude: u32,
    /// The number of cells in a row.
    number_of_h_grids: u16,
    /// The step from a row to the next one to the south.
    grid_height: u32,
    /// The step from a cell to the next one to the east.
    grid_width: u32,
    /// The value of each level.
    value_by_levels: &'a [u16],
    /// The level repetition table.
    level_repetitions: &'a [LevelRepetition],
    /// The number of bytes of the compressed grid that are used up.
    read_bytes: usize,
    /// The latitude of the next cell.
    current_latitude: u32,
    /// The longitude of the next cell.
    current_longitude: u32,
    /// The number of cells of the current row that were yielded.
    h_moved_times: u16,
    /// The measurement of the current run.
    current_value: Option<u16>,
    /// The number of cells of the current run that are still to yield.
    number_of_repetitions: u16,
    /// Whether an error was yielded.
    failed: bool,
    /// The position of the first byte of the compressed grid.
    start: Ghost<int>,
    /// The latitude of the first cell.
    max_latitude: Ghost<u32>,
    /// The number of pulls that yielded something.
    pulled: Ghost<nat>,
}

impl<'a> RapValueIterator<'a> {
    /// What the session works on. It stays the same from pull to pull.
    pub closed spec fn session(&self) -> Session {
        Session {
            data: self.reader.data@,
            start: self.start@,
            size: self.compressed_data_bytes as int,
            max_latitude: self.max_latitude@,
            min_longitude: self.min_longitude,
            number_of_h_grids: self.number_of_h_grids,
            grid_height: self.grid_height,
            grid_width: self.grid_width,
            levels: self.value_by_levels@,
            table: self.level_repetitions@,
        }
    }

    /// The number of pulls that yielded a cell or an error.
    pub closed spec fn pulled(&self) -> nat {
        self.pulled@
    }

    /// The number of bytes of the compressed grid that are used up.
    pub closed spec fn consumed(&self) -> nat {
        self.read_bytes as nat
    }

    /// The number of cells of the run read last that are still to yield.
    pub closed spec fn pending(&self) -> nat {
        self.number_of_repetitions as nat
    }

    /// Whether the session has yielded an error.
    pub closed spec fn failed(&self) -> bool {
        self.failed
    }

    /// What the pulls to come yield, in their order.
    pub open spec fn remaining(&self) -> Seq<Outcome> {
        self.session().outcomes().skip(self.pulled() as int)
    }

    /// Whether the reader stands behind the bytes that are used up.
    spec fn in_step(&self) -> bool {
        &&& 0 <= self.start@
        &&& self.reader.position == self.start@ + self.read_bytes
    }

    /// The invariant of a session: what it holds of the current run, the
    /// runs still to read and the next cell agrees with what it has yielded.
    pub closed spec fn wf(&self) -> bool {
        let s = self.session();
        let k = self.pulled@ as int;
        let pending = self.number_of_repetitions as int;
        if self.failed {
            &&& k == s.outcomes().len()
            &&& s.fault() is Some
            &&& self.read_bytes == s.used()
        } else {
            &&& self.in_step()
            &&& pending <= 257
            &&& k + pending <= s.values().len()
            &&& forall|j: int|
                k <= j < k + pending ==> measurement(#[trigger] s.values()[j]) == self.current_value
            &&& s.values().skip(k + pending) == expanded(s.runs_from(self.read_bytes as int))
            &&& s.fault() == s.fault_from(self.read_bytes as int)
            &&& s.used() == s.used_from(self.read_bytes as int)
            &&& self.current_latitude == s.latitude_of(k)
            &&& self.current_longitude == s.longitude_of(k)
            &&& self.h_moved_times == s.column_of(k)
        }
    }

    /// Whether `self` is `before` with `count` more bytes read.
    spec fn advanced(&self, before: &Self, count: int) -> bool {
        &&& self.in_step()
        &&& self.read_bytes == before.read_bytes + count
        &&& *self == (RapValueIterator {
            reader: ByteReader {
                data: before.reader.data,
                position: (before.reader.position + count) as u64,
            },
            read_bytes: (before.read_bytes + count) as usize,
            ..*before
        })
    }

    /// Starts a session on the compressed grid at which `reader` stands.
    ///
    /// * `reader` - the bytes of the file, at the first byte of the compressed grid
    /// * `compressed_data_bytes` - the number of bytes of the compressed grid
    /// * `max_latitude` - the latitude of the north-west corner
    /// * `min_longitude` - the longitude of the north-west corner
    /// * `number_of_h_grids` - the number of cells in a row
    /// * `grid_height` - the height of a cell
    /// * `grid_width` - the width of a cell
    /// * `value_by_levels` - the value of each level
    /// * `level_repetitions` - the level repetition table
    #[allow(clippy::too_many_arguments)]
    pub fn new(
        reader: ByteReader<'a>,
        compressed_data_bytes: usize,
        max_latitude: u32,
        min_longitude: u32,
        number_of_h_grids: u16,
        grid_height: u32,
        grid_width: u32,
        value_by_levels: &'a [u16],
        level_repetitions: &'a [LevelRepetition],
    ) -> (session: Self)
        ensures
            session.wf(),
            session.session() == (Session {
                data: reader.data@,
                start: reader.position as int,
                size: compressed_data_bytes as int,
                max_latitude,
                min_longitude,
                number_of_h_grids,
                grid_height,
                grid_width,
                levels: value_by_levels@,
                table: level_repetitions@,
            }),
            session.pulled() == 0,
            session.consumed() == 0,
            session.pending() == 0,
            !session.failed(),
            session.remaining() == session.session().outcomes(),
    {
        let ghost start = reader.position as int;
        let session = Self {
            reader,
            compressed_data_bytes,
            min_longitude,
            number_of_h_grids,
            grid_height,
            grid_width,
            value_by_levels,
            level_repetitions,
            read_bytes: 0,
            current_latitude: max_latitude,
            current_longitude: min_longitude,
            h_moved_times: 0,
            current_value: None,
            number_of_repetitions: 0,
            failed: false,
            start: Ghost(start),
            max_latitude: Ghost(max_latitude),
            pulled: Ghost(0),
        };
        proof {
            let s = session.session();
            assert(s.row_of(0) == 0 && s.column_of(0) == 0);
            assert(s.values().skip(0) =~= s.values());
        }
        session
    }

    /// Yields the next cell, or the error that ends the session, or nothing
    /// once the session is at its end.
    ///
    /// A run is read only when the run before it is yielded whole and bytes
    /// of the compressed grid are left; a run that is read is yielded whole,
    /// whether or not its bytes used up the grid.
    pub fn next(&mut self) -> (item: Option<Result<LocationValue, RapReaderError>>)
        requires
            old(self).wf(),
        ensures
            final(self).wf(),
            final(self).session() == old(self).session(),
            match item {
                None => {
                    &&& old(self).remaining().len() == 0
                    &&& old(self).pulled() == old(self).session().outcomes().len()
                    &&& old(self).consumed() == old(self).session().used()
                },
                Some(Ok(cell)) => {
                    &&& old(self).remaining().len() > 0
                    &&& old(self).remaining()[0] == Ok::<_, RapReaderErrorView>(cell)
                    &&& old(self).pulled() < old(self).session().values().len()
                    &&& cell == old(self).session().cell(
                        old(self).pulled() as int,
                        old(self).session().values()[old(self).pulled() as int],
                    )
                },
                Some(Err(e)) => {
                    &&& old(self).remaining().len() > 0
                    &&& old(self).remaining()[0] == Err::<LocationValue, _>(e@)
                    &&& old(self).pulled() == old(self).session().values().len()
                    &&& old(self).session().fault() == Some(e@)
                    &&& old(self).pending() == 0
                    &&& old(self).consumed() < old(self).session().size
                    &&& old(self).session().run_behind(old(self).consumed() as int) == Err::<
                        ExpandedValue,
                        _,
                    >(e@)
                    &&& final(self).consumed() == old(self).consumed() + old(self).session().taken_behind(old(self).consumed() as int)
                    &&& final(self).consumed() == old(self).session().used()
                },
            },
            item is Some ==> final(self).pulled() == old(self).pulled() + 1
                && final(self).remaining() == old(self).remaining().skip(1),
            item is None ==> final(self).pulled() == old(self).pulled()
                && final(self).consumed() == old(self).consumed()
                && final(self).pending() == old(self).pending(),
            final(self).failed() == (old(self).failed() || item matches Some(Err(_))),
            item matches Some(Ok(_)) && old(self).pending() > 0 ==> {
                &&& final(self).consumed() == old(self).consumed()
                &&& final(self).pending() == old(self).pending() - 1
            },
            item matches Some(Ok(_)) && old(self).pending() == 0 ==> {
                let consumed = old(self).consumed() as int;
                &&& consumed < old(self).session().size
                &&& old(self).session().run_behind(consumed) is Ok
                &&& final(self).consumed() == consumed + old(self).session().len_behind(consumed)
                &&& final(self).pending() + 1 == old(self).session().run_behind(
                    consumed,
                )->Ok_0.number_of_repetitions
            },
    {
        let ghost s = self.session();
        let ghost k = self.pulled@ as int;
        proof {
            lemma_expanded_len(s.runs());
        }
        if self.failed {
            return None;
        }
        // The end: the current run is yielded whole and the bytes of the grid are used up.
        if self.number_of_repetitions == 0 && self.compressed_data_bytes <= self.read_bytes {
            assert(s.values().skip(k).len() == 0);
            return None;
        }
        // The current run is yielded whole: read the next one.
        if self.number_of_repetitions == 0 {
            let ev = match self.expand_run_length() {
                Ok(ev) => ev,
                Err(e) => {
                    self.failed = true;
                    self.pulled = Ghost((k + 1) as nat);
                    proof {
                        assert(s.values().skip(k).len() == 0);
                    }
                    return Some(Err(e));
                },
            };
            proof {
                s.lemma_fetch(k, old(self).read_bytes as int, ev);
            }
            self.current_value = if ev.value < u16::MAX {
                Some(ev.value)
            } else {
                None
            };
            self.number_of_repetitions = ev.number_of_repetitions;
        }
        let result = LocationValue {
            latitude: self.current_latitude,
            longitude: self.current_longitude,
            value: self.current_value,
        };
        proof {
            s.lemma_next_cell(k);
            lemma_wrapped_step(s.min_longitude + s.column_of(k) * s.grid_width, s.grid_width);
            lemma_wrapped_step(s.max_latitude - s.row_of(k) * s.grid_height, s.grid_height);
            assert((s.column_of(k) + 1) * s.grid_width == s.column_of(k) * s.grid_width
                + s.grid_width) by (nonlinear_arith);
            assert((s.row_of(k) + 1) * s.grid_height == s.row_of(k) * s.grid_height
                + s.grid_height) by (nonlinear_arith);
        }
        // To the next cell: eastwards, and from the end of a row to the start of the next one.
        self.current_longitude = self.current_longitude.wrapping_add(self.grid_width);
        self.h_moved_times += 1;
        if self.number_of_h_grids <= self.h_moved_times {
            self.current_latitude = self.current_latitude.wrapping_sub(self.grid_height);
            self.current_longitude = self.min_longitude;
            self.h_moved_times = 0;
        }
        self.number_of_repetitions -= 1;
        self.pulled = Ghost((k + 1) as nat);
        Some(Ok(result))
    }

    /// Reads one byte of the compressed grid.
    fn read_run_length_byte(&mut self) -> (res: Result<u8, RapReaderError>)
        requires
            old(self).in_step(),
        ensures
            match res {
                Ok(byte) => {
                    &&& available(old(self).reader.data@, old(self).reader.position as int, 1)
                    &&& byte == old(self).reader.data@[old(self).reader.position as int]
                    &&& final(self).advanced(old(self), 1)
                },
                Err(e) => {
                    &&& !available(old(self).reader.data@, old(self).reader.position as int, 1)
                    &&& e@ == unexpected(DATA_BYTE)
                    &&& final(self).advanced(old(self), 0)
                },
            },
    {
        let byte: u8 = match read_u8(&mut self.reader) {
            Ok(byte) => byte,
            Err(_) => return Err(RapReaderError::unexpected(DATA_BYTE)),
        };
        self.read_bytes += 1;
        Ok(byte)
    }

    /// Reads the next run of the compressed grid.
    fn expand_run_length(&mut self) -> (res: Result<ExpandedValue, RapReaderError>)
        requires
            old(self).in_step(),
        ensures
            match res {
                Ok(run) => {
                    let consumed = old(self).read_bytes as int;
                    &&& old(self).session().run_behind(consumed) == Ok::<_, RapReaderErrorView>(run)
                    &&& final(self).advanced(old(self), old(self).session().len_behind(consumed))
                    &&& 1 <= run.number_of_repetitions <= 257
                },
                Err(e) => {
                    &&& old(self).session().run_behind(old(self).read_bytes as int) == Err::<
                        ExpandedValue,
                        _,
                    >(e@)
                    &&& final(self).advanced(
                        old(self),
                        old(self).session().taken_behind(old(self).read_bytes as int),
                    )
                },
            },
    {
        let buf: u8 = match self.read_run_length_byte() {
            Ok(byte) => byte,
            Err(e) => return Err(e),
        };
        proof {
            lemma_forms_of_a_run(buf);
        }
        if buf & 0x80 == 0x00 {
            // A run that the level repetition table holds.
            if buf as usize >= self.level_repetitions.len() {
                return Err(RapReaderError::unexpected(TABLE_INDEX));
            }
            let lr = self.level_repetitions[buf as usize];
            if lr.level as usize >= self.value_by_levels.len() {
                return Err(RapReaderError::unexpected(LEVEL_INDEX));
            }
            Ok(
                ExpandedValue {
                    value: self.value_by_levels[lr.level as usize],
                    number_of_repetitions: lr.repetition as u16 + 2,
                },
            )
        } else if buf & 0xE0 == 0xC0 {
            // A run with its own repetition.
            let level: usize = (buf & 0x1F) as usize;
            if level >= self.value_by_levels.len() {
                return Err(RapReaderError::unexpected(LEVEL_INDEX));
            }
            let value: u16 = self.value_by_levels[level];
            let repetition: u8 = match self.read_run_length_byte() {
                Ok(byte) => byte,
                Err(e) => return Err(e),
            };
            Ok(ExpandedValue { value, number_of_repetitions: repetition as u16 + 2 })
        } else if buf & 0xC0 == 0x80 {
            // A single cell of a frequent level.
            let level: usize = (buf & 0x3F) as usize;
            if level >= self.value_by_levels.len() {
                return Err(RapReaderError::unexpected(LEVEL_INDEX));
            }
            Ok(ExpandedValue { value: self.value_by_levels[level], number_of_repetitions: 1 })
        } else if buf == 0xFE {
            // A single cell of a rare level.
            let level: usize = match self.read_run_length_byte() {
                Ok(byte) => byte as usize,
                Err(e) => return Err(e),
            };
            if level >= self.value_by_levels.len() {
                return Err(RapReaderError::unexpected(LEVEL_INDEX));
            }
            Ok(ExpandedValue { value: self.value_by_levels[level], number_of_repetitions: 1 })
        } else {
            Err(unknown_run_error_of(buf))
        }
    }
}

/// The four forms of a run by the range of its first byte: below `0x80` a
/// run of the level repetition table, from `0x80` to `0xBF` a single cell
/// of a frequent level, from `0xC0` to `0xDF` a run with its own
/// repetition, and `0xFE` a single cell of a rare level.
pub proof fn lemma_forms_of_a_run(lead: u8)
    ensures
        lead & 0x80 == 0x00 <==> lead < 0x80,
        lead & 0xE0 == 0xC0 <==> 0xC0 <= lead <= 0xDF,
        lead & 0xC0 == 0x80 <==> 0x80 <= lead <= 0xBF,
        0xC0 <= lead <= 0xDF ==> lead & 0x1F == lead - 0xC0,
        0x80 <= lead <= 0xBF ==> lead & 0x3F == lead - 0x80,
        has_second_byte(lead) <==> 0xC0 <= lead <= 0xDF || lead == 0xFE,
{
    assert(lead & 0x80 == 0x00 <==> lead < 0x80) by (bit_vector);
    assert(lead & 0xE0 == 0xC0 <==> 0xC0 <= lead <= 0xDF) by (bit_vector);
    assert(lead & 0xC0 == 0x80 <==> 0x80 <= lead <= 0xBF) by (bit_vector);
    assert(0xC0 <= lead <= 0xDF ==> lead & 0x1F == lead - 0xC0) by (bit_vector);
    assert(0x80 <= lead <= 0xBF ==> lead & 0x3F == lead - 0x80) by (bit_vector);
}

/// A run of the level repetition table and a run with its own repetition
/// have two cells more than the repetition that they name; the two other
/// forms stand for a single cell. Every run that can be read has one of the
/// four forms.
pub proof fn lemma_repetitions_of_a_run(
    data: Seq<u8>,
    at: int,
    levels: Seq<u16>,
    table: Seq<LevelRepetition>,
)
    requires
        token_at(data, at, levels, table) is Ok,
    ensures
        ({
            let lead = data[at];
            let run = token_at(data, at, levels, table)->Ok_0;
            &&& lead < 0x80 ==> run.number_of_repetitions == table[lead as int].repetition + 2
                && run.value == levels[table[lead as int].level as int]
            &&& 0xC0 <= lead <= 0xDF ==> run.number_of_repetitions == data[at + 1] + 2 && run.value
                == levels[lead - 0xC0]
            &&& 0x80 <= lead <= 0xBF ==> run.number_of_repetitions == 1 && run.value
                == levels[lead - 0x80]
            &&& lead == 0xFE ==> run.number_of_repetitions == 1 && run.value
                == levels[data[at + 1] as int]
            &&& lead <= 0xDF || lead == 0xFE
            &&& 1 <= run.number_of_repetitions <= 257
        }),
{
    lemma_forms_of_a_run(data[at]);
}

/// A first byte from `0xE0` to `0xFD`, and `0xFF`, starts no run: reading
/// there fails with the error that shows the byte, and uses that one byte.
/// Every other first byte starts a run, which can be read where the bytes
/// and the entries that it names are there.
pub proof fn lemma_bytes_that_start_no_run(
    data: Seq<u8>,
    at: int,
    levels: Seq<u16>,
    table: Seq<LevelRepetition>,
)
    requires
        available(data, at, 1),
    ensures
        (0xE0 <= data[at] <= 0xFD || data[at] == 0xFF) ==> token_read(data, at, levels, table) == (
            Err::<ExpandedValue, _>(unknown_run_error(data[at])),
            1int,
        ),
        data[at] < 0x80 && data[at] < table.len() && table[data[at] as int].level < levels.len()
            ==> token_at(data, at, levels, table) is Ok && token_taken(data, at, levels, table)
            == 1,
        0x80 <= data[at] <= 0xBF && data[at] - 0x80 < levels.len() ==> token_at(
            data,
            at,
            levels,
            table,
        ) is Ok && token_taken(data, at, levels, table) == 1,
        0xC0 <= data[at] <= 0xDF && data[at] - 0xC0 < levels.len() && available(data, at + 1, 1)
            ==> token_at(data, at, levels, table) is Ok && token_taken(data, at, levels, table)
            == 2,
        data[at] == 0xFE && available(data, at + 1, 1) && data[at + 1] < levels.len() ==> token_at(
            data,
            at,
            levels,
            table,
        ) is Ok && token_taken(data, at, levels, table) == 2,
        0 <= token_taken(data, at, levels, table) <= 2,
        token_at(data, at, levels, table) is Ok ==> token_taken(data, at, levels, table)
            == token_len(data[at]),
{
    lemma_forms_of_a_run(data[at]);
}

impl Session {
    /// Whether the grid can be read to its end and has exactly the cells of
    /// `rows` rows.
    pub open spec fn fills_grid(self, rows: u16) -> bool {
        self.fault() is None && run_length(self.runs()) == self.number_of_h_grids * rows
    }

    /// A session yields one cell for each cell of its runs, and behind them
    /// the error, where there is one.
    pub proof fn lemma_outcomes_len(self)
        ensures
            self.values().len() == run_length(self.runs()),
            self.outcomes().len() == run_length(self.runs()) + if self.fault() is Some {
                1nat
            } else {
                0nat
            },
            forall|k: int|
                0 <= k < self.values().len() ==> #[trigger] self.outcomes()[k] == Ok::<
                    _,
                    RapReaderErrorView,
                >(self.cell(k, self.values()[k])),
    {
        lemma_expanded_len(self.runs());
    }

    /// A grid that fills `rows` rows yields exactly as many cells as the
    /// rows have, and nothing else.
    pub proof fn lemma_valid_grid_yields_every_cell(self, rows: u16)
        requires
            self.fills_grid(rows),
        ensures
            self.outcomes().len() == self.number_of_h_grids * rows,
            forall|k: int|
                0 <= k < self.number_of_h_grids * rows ==> #[trigger] self.outcomes()[k] is Ok,
    {
        self.lemma_outcomes_len();
    }

    /// A level value of `0xFFFF` is yielded as a cell without a measurement,
    /// and no cell is yielded with the measurement `0xFFFF`.
    pub proof fn lemma_no_data_is_absent(self, k: int)
        requires
            0 <= k < self.outcomes().len(),
            self.outcomes()[k] is Ok,
        ensures
            k < self.values().len(),
            self.outcomes()[k]->Ok_0.value is None <==> self.values()[k] == NO_DATA,
            self.outcomes()[k]->Ok_0.value matches Some(value) ==> value == self.values()[k]
                && value != NO_DATA,
    {
        self.lemma_outcomes_len();
    }

    /// The first cell lies in the north-west corner. Where the grid has
    /// `rows` rows, the last cell of the last row lies `rows - 1` rows to
    /// the south and one cell less than a row to the east, as long as no
    /// coordinate of that cell leaves the range of `u32`.
    pub proof fn lemma_corner_cells(self, rows: u16)
        requires
            self.number_of_h_grids >= 1,
            rows >= 1,
            self.number_of_h_grids * rows <= self.values().len(),
            self.max_latitude - (rows - 1) * self.grid_height >= 0,
            self.min_longitude + (self.number_of_h_grids - 1) * self.grid_width <= u32::MAX,
        ensures
            self.outcomes()[0] is Ok,
            self.outcomes()[0]->Ok_0.latitude == self.max_latitude,
            self.outcomes()[0]->Ok_0.longitude == self.min_longitude,
            self.outcomes()[self.number_of_h_grids * rows - 1] is Ok,
            self.outcomes()[self.number_of_h_grids * rows - 1]->Ok_0.latitude == self.max_latitude
                - (rows - 1) * self.grid_height,
            self.outcomes()[self.number_of_h_grids * rows - 1]->Ok_0.longitude
                == self.min_longitude + (self.number_of_h_grids - 1) * self.grid_width,
    {
        let h = self.number_of_h_grids as int;
        let last = h * rows - 1;
        self.lemma_outcomes_len();
        assert(h * rows >= 1) by (nonlinear_arith)
            requires
                h >= 1,
                rows >= 1,
        ;
        assert(last == (rows - 1) * h + (h - 1)) by (nonlinear_arith)
            requires
                last == h * rows - 1,
        ;
        vstd::arithmetic::div_mod::lemma_fundamental_div_mod_converse(last, h, rows - 1, h - 1);
        assert(self.row_of(0) == 0 && self.column_of(0) == 0);
        assert((h - 1) * self.grid_width >= 0) by (nonlinear_arith)
            requires
                h >= 1,
        ;
        assert((rows - 1) * self.grid_height >= 0) by (nonlinear_arith)
            requires
                rows >= 1,
        ;
    }

    /// The size of the compressed grid bounds where a run starts, not where
    /// it ends nor what it yields: once the size is used up no run is read,
    /// and a run that starts below the size is yielded with all its cells.
    pub proof fn lemma_size_bounds_the_start_of_a_run(self, consumed: int)
        ensures
            consumed >= self.size ==> self.runs_from(consumed).len() == 0 && self.fault_from(
                consumed,
            ) is None,
            consumed < self.size && self.run_behind(consumed) is Ok ==> {
                let run = self.run_behind(consumed)->Ok_0;
                &&& self.runs_from(consumed)[0] == run
                &&& expanded(self.runs_from(consumed)).len() >= run.number_of_repetitions
                &&& forall|i: int|
                    0 <= i < run.number_of_repetitions ==> #[trigger] expanded(
                        self.runs_from(consumed),
                    )[i] == run.value
            },
    {
        if consumed < self.size && self.run_behind(consumed) is Ok {
            let run = self.run_behind(consumed)->Ok_0;
            lemma_expanded_front(run, self.runs_from(consumed + self.len_behind(consumed)));
        }
    }
}

impl Session {
    /// Reading runs uses up at least the bytes that are used up already.
    /// Where no run fails, it ends with the size of the compressed grid used
    /// up, or with one byte more where the last run has its second byte
    /// behind the size.
    pub proof fn lemma_used_bounds(self, consumed: int)
        ensures
            consumed <= self.used_from(consumed),
            consumed >= self.size ==> self.used_from(consumed) == consumed,
            self.fault_from(consumed) is None && consumed < self.size ==> self.size
                <= self.used_from(consumed),
            self.fault_from(consumed) is None && consumed <= self.size + 1 ==> self.used_from(
                consumed,
            ) <= self.size + 1,
        decreases self.left(consumed),
    {
        if consumed < self.size {
            if self.run_behind(consumed) is Ok {
                self.lemma_used_bounds(consumed + self.len_behind(consumed));
            }
        }
    }
}

impl<'a> RapValueIterator<'a> {
    /// What a session has yielded is part of what it yields in all, and
    /// what is left is the rest of it, in the same order. A session that
    /// has failed has nothing left.
    pub proof fn lemma_pulled_is_in_bounds(&self)
        requires
            self.wf(),
        ensures
            self.pulled() <= self.session().outcomes().len(),
            self.remaining().len() == self.session().outcomes().len() - self.pulled(),
            forall|i: int|
                0 <= i < self.remaining().len() ==> #[trigger] self.remaining()[i]
                    == self.session().outcomes()[self.pulled() + i],
            self.failed() ==> self.remaining().len() == 0 && self.session().fault() is Some
                && self.consumed() == self.session().used(),
            !self.failed() ==> self.pulled() + self.pending() <= self.session().values().len(),
    {
        self.session().lemma_outcomes_len();
    }

    /// A session on a grid that fills `rows` rows does not fail, and yields
    /// the cells of the grid that it has not yielded yet, and nothing else.
    pub proof fn lemma_valid_grid_is_yielded_whole(&self, rows: u16)
        requires
            self.wf(),
            self.session().fills_grid(rows),
        ensures
            !self.failed(),
            self.pulled() <= self.session().number_of_h_grids * rows,
            self.remaining().len() == self.session().number_of_h_grids * rows - self.pulled(),
            forall|i: int| 0 <= i < self.remaining().len() ==> #[trigger] self.remaining()[i] is Ok,
    {
        self.session().lemma_outcomes_len();
        self.lemma_pulled_is_in_bounds();
    }

    /// On a grid that fills `rows` rows, the first pull yields the cell in
    /// the north-west corner. The pull behind all cells but one yields the
    /// cell in the south-east corner, as long as no coordinate of that cell
    /// leaves the range of `u32`, and nothing is left behind it.
    pub proof fn lemma_corners_are_yielded_first_and_last(&self, rows: u16)
        requires
            self.wf(),
            self.session().fills_grid(rows),
            self.session().number_of_h_grids >= 1,
            rows >= 1,
            self.session().max_latitude - (rows - 1) * self.session().grid_height >= 0,
            self.session().min_longitude + (self.session().number_of_h_grids - 1)
                * self.session().grid_width <= u32::MAX,
        ensures
            self.pulled() == 0 ==> self.remaining().len() > 0 && self.remaining()[0] is Ok
                && self.remaining()[0]->Ok_0.latitude == self.session().max_latitude
                && self.remaining()[0]->Ok_0.longitude == self.session().min_longitude,
            self.pulled() == self.session().number_of_h_grids * rows - 1 ==> {
                &&& self.remaining().len() == 1
                &&& self.remaining()[0] is Ok
                &&& self.remaining()[0]->Ok_0.latitude == self.session().max_latitude - (rows - 1)
                    * self.session().grid_height
                &&& self.remaining()[0]->Ok_0.longitude == self.session().min_longitude + (
                self.session().number_of_h_grids - 1) * self.session().grid_width
            },
    {
        let s = self.session();
        s.lemma_outcomes_len();
        s.lemma_corner_cells(rows);
        self.lemma_valid_grid_is_yielded_whole(rows);
        self.lemma_pulled_is_in_bounds();
        assert(s.number_of_h_grids * rows >= 1) by (nonlinear_arith)
            requires
                s.number_of_h_grids >= 1,
                rows >= 1,
        ;
    }

    /// Once the bytes of the compressed grid are used up, a session yields
    /// the cells that are left of the run read last, and then nothing; a
    /// session that has failed yields nothing.
    pub proof fn lemma_buffered_run_is_yielded(&self)
        requires
            self.wf(),
            self.failed() || self.consumed() >= self.session().size,
        ensures
            self.remaining().len() == if self.failed() {
                0
            } else {
                self.pending()
            },
            forall|i: int| 0 <= i < self.remaining().len() ==> #[trigger] self.remaining()[i] is Ok,
    {
        let s = self.session();
        let k = self.pulled@ as int;
        s.lemma_outcomes_len();
        if !self.failed {
            assert(s.values().skip(k + self.pending()).len() == 0);
        }
    }
}

} // verus!
