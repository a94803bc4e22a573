use jma_rap::bytes::ByteReader;
use jma_rap::error::RapReaderError;
use jma_rap::header::LevelRepetition;
use jma_rap::values::{LocationValue, RapValueIterator, DATA_BYTE, LEVEL_INDEX, TABLE_INDEX};

fn unexpected(text: &str) -> RapReaderError {
    RapReaderError::Unexpected(text.to_string())
}

fn table_with_entry_5() -> Vec<LevelRepetition> {
    let mut table = vec![LevelRepetition { level: 0, repetition: 0 }; 5];
    table.push(LevelRepetition { level: 2, repetition: 1 });
    table
}

/// A session on `data` from its first byte, on a grid of `h` cells in a row that starts at
/// (1000, 2000) with cells 10 wide and 5 high.
fn session<'a>(
    data: &'a [u8],
    size: usize,
    h: u16,
    levels: &'a [u16],
    table: &'a [LevelRepetition],
) -> RapValueIterator<'a> {
    RapValueIterator::new(ByteReader::new(data), size, 1000, 2000, h, 5, 10, levels, table)
}

fn pull_all(session: &mut RapValueIterator) -> Vec<Result<LocationValue, RapReaderError>> {
    let mut items = Vec::new();
    while let Some(item) = session.next() {
        items.push(item);
        assert!(items.len() < 100_000);
    }
    items
}

fn values_of(items: &[Result<LocationValue, RapReaderError>]) -> Vec<Option<u16>> {
    items.iter().map(|item| item.clone().unwrap().value).collect()
}

#[test]
fn three_forms_of_runs_in_four_bytes() {
    // A fifth byte follows, which would start a run; it lies behind the size.
    let data = [0x05, 0x81, 0xC2, 0x03, 0x81];
    let levels = [0, 7, 15];
    let table = table_with_entry_5();
    let mut it = session(&data, 4, 3, &levels, &table);
    let items = pull_all(&mut it);
    assert_eq!(items.len(), 9);
    assert_eq!(
        values_of(&items),
        vec![
            Some(15),
            Some(15),
            Some(15),
            Some(7),
            Some(15),
            Some(15),
            Some(15),
            Some(15),
            Some(15)
        ]
    );
    assert_eq!(it.next(), None);
}

#[test]
fn cells_run_east_and_then_south() {
    let data = [0x05, 0x81, 0xC2, 0x03];
    let levels = [0, 7, 15];
    let table = table_with_entry_5();
    let mut it = session(&data, 4, 3, &levels, &table);
    let items = pull_all(&mut it);
    let places: Vec<(u32, u32)> =
        items.iter().map(|item| item.clone().unwrap()).map(|c| (c.latitude, c.longitude)).collect();
    assert_eq!(
        places,
        vec![
            (1000, 2000),
            (1000, 2010),
            (1000, 2020),
            (995, 2000),
            (995, 2010),
            (995, 2020),
            (990, 2000),
            (990, 2010),
            (990, 2020)
        ]
    );
}

#[test]
fn first_and_last_cell_are_the_corners() {
    // 4 cells in a row, 3 rows: 12 cells in one run of 2 + 10.
    let data = [0xC0, 10];
    let levels = [1];
    let mut it = session(&data, 2, 4, &levels, &[]);
    let items = pull_all(&mut it);
    assert_eq!(items.len(), 4 * 3);
    assert_eq!(
        items[0],
        Ok(LocationValue { latitude: 1000, longitude: 2000, value: Some(1) })
    );
    assert_eq!(
        items[11],
        Ok(LocationValue { latitude: 1000 - 2 * 5, longitude: 2000 + 3 * 10, value: Some(1) })
    );
}

#[test]
fn run_of_the_table_has_two_cells_more_than_its_repetition() {
    let levels = [3, 4];
    let table = [
        LevelRepetition { level: 1, repetition: 0 },
        LevelRepetition { level: 0, repetition: 255 },
    ];
    let first = [0x00];
    let mut it = session(&first, 1, 10, &levels, &table);
    assert_eq!(values_of(&pull_all(&mut it)), vec![Some(4); 2]);
    let second = [0x01];
    let mut it = session(&second, 1, 10, &levels, &table);
    assert_eq!(values_of(&pull_all(&mut it)), vec![Some(3); 257]);
}

#[test]
fn run_with_its_own_repetition_has_two_cells_more() {
    let levels: Vec<u16> = (100..132).collect();
    let data = [0xC0, 0x00, 0xDF, 0xFF];
    let mut it = session(&data, 4, 10, &levels, &[]);
    let values = values_of(&pull_all(&mut it));
    assert_eq!(values.len(), 2 + 257);
    assert_eq!(values[..2], [Some(100), Some(100)]);
    assert!(values[2..].iter().all(|v| *v == Some(131)));
}

#[test]
fn single_cells_of_frequent_levels() {
    let levels: Vec<u16> = (100..164).collect();
    let data = [0x80, 0xBF, 0x81];
    let mut it = session(&data, 3, 10, &levels, &[]);
    assert_eq!(values_of(&pull_all(&mut it)), vec![Some(100), Some(163), Some(101)]);
}

#[test]
fn single_cells_of_rare_levels() {
    let levels: Vec<u16> = (1000..1256).collect();
    let data = [0xFE, 0x00, 0xFE, 0xFF, 0xFE, 0x40];
    let mut it = session(&data, 6, 10, &levels, &[]);
    assert_eq!(values_of(&pull_all(&mut it)), vec![Some(1000), Some(1255), Some(1064)]);
}

#[test]
fn level_without_a_measurement_gives_no_value() {
    let levels = [0xFFFF, 0xFFFE, 0];
    let data = [0x80, 0x81, 0x82, 0xC0, 0x01];
    let mut it = session(&data, 5, 10, &levels, &[]);
    assert_eq!(
        values_of(&pull_all(&mut it)),
        vec![None, Some(0xFFFE), Some(0), None, None, None]
    );
}

#[test]
fn no_run_is_started_once_the_size_is_used_up() {
    // Four runs are there, the size admits two of them.
    let data = [0x80, 0x81, 0x80, 0x81];
    let levels = [1, 2];
    let mut it = session(&data, 2, 10, &levels, &[]);
    assert_eq!(values_of(&pull_all(&mut it)), vec![Some(1), Some(2)]);
}

#[test]
fn run_that_starts_below_the_size_is_yielded_whole() {
    // The second byte of the last run lies behind the size, and its five cells are
    // yielded all the same.
    let data = [0x80, 0xC1, 0x03, 0x80];
    let levels = [1, 2];
    let mut it = session(&data, 2, 10, &levels, &[]);
    assert_eq!(
        values_of(&pull_all(&mut it)),
        vec![Some(1), Some(2), Some(2), Some(2), Some(2), Some(2)]
    );
}

#[test]
fn empty_grid_yields_nothing() {
    let data = [0x80];
    let levels = [1];
    let mut it = session(&data, 0, 10, &levels, &[]);
    assert_eq!(it.next(), None);
    assert_eq!(it.next(), None);
}

#[test]
fn session_starts_where_its_reader_stands() {
    let data = [0xFF, 0xFF, 0x81, 0x80];
    let levels = [1, 2];
    let mut it =
        RapValueIterator::new(ByteReader::at(&data, 2), 2, 1000, 2000, 10, 5, 10, &levels, &[]);
    assert_eq!(values_of(&pull_all(&mut it)), vec![Some(2), Some(1)]);
}

#[test]
fn byte_that_starts_no_run_ends_the_session() {
    for lead in [0xE0u8, 0xEF, 0xF0, 0xFD, 0xFF] {
        let data = [0x80, lead, 0x80];
        let levels = [1];
        let mut it = session(&data, 3, 10, &levels, &[]);
        assert_eq!(
            it.next(),
            Some(Ok(LocationValue { latitude: 1000, longitude: 2000, value: Some(1) }))
        );
        assert_eq!(
            it.next(),
            Some(Err(RapReaderError::Unexpected(format!(
                "データ部に判別できないバイトが見つかりました。`0x{lead:x}"
            ))))
        );
        assert_eq!(it.next(), None);
        assert_eq!(it.next(), None);
    }
}

#[test]
fn byte_that_starts_no_run_is_shown_in_hexadecimal_digits() {
    let data = [0xE0];
    let levels = [1];
    let mut it = session(&data, 1, 10, &levels, &[]);
    assert_eq!(
        it.next(),
        Some(Err(unexpected("データ部に判別できないバイトが見つかりました。`0xe0")))
    );
}

#[test]
fn entry_that_the_table_does_not_have_ends_the_session() {
    let data = [0x05, 0x06];
    let levels = [0, 7, 15];
    let table = table_with_entry_5();
    let mut it = session(&data, 2, 10, &levels, &table);
    let items = pull_all(&mut it);
    assert_eq!(items.len(), 4);
    assert_eq!(values_of(&items[..3]), vec![Some(15); 3]);
    assert_eq!(items[3], Err(unexpected(TABLE_INDEX)));
}

#[test]
fn level_that_the_table_names_must_exist() {
    let data = [0x00];
    let levels = [0, 7];
    let table = [LevelRepetition { level: 2, repetition: 0 }];
    let mut it = session(&data, 1, 10, &levels, &table);
    assert_eq!(pull_all(&mut it), vec![Err(unexpected(LEVEL_INDEX))]);
}

#[test]
fn level_of_each_form_must_exist() {
    let levels = [0, 7];
    for data in [vec![0xC2u8, 0x00], vec![0x82], vec![0xFE, 0x02]] {
        let mut it = session(&data, data.len(), 10, &levels, &[]);
        assert_eq!(pull_all(&mut it), vec![Err(unexpected(LEVEL_INDEX))]);
    }
}

#[test]
fn level_is_looked_up_before_the_repetition_is_read() {
    // The level does not exist and the repetition is missing: the level decides.
    let data = [0xC2];
    let levels = [0, 7];
    let mut it = session(&data, 1, 10, &levels, &[]);
    assert_eq!(pull_all(&mut it), vec![Err(unexpected(LEVEL_INDEX))]);
}

#[test]
fn data_that_ends_before_the_size_ends_the_session() {
    let data = [0x80];
    let levels = [1];
    let mut it = session(&data, 2, 10, &levels, &[]);
    assert_eq!(
        pull_all(&mut it),
        vec![
            Ok(LocationValue { latitude: 1000, longitude: 2000, value: Some(1) }),
            Err(unexpected(DATA_BYTE))
        ]
    );
}

#[test]
fn second_byte_that_is_missing_ends_the_session() {
    let levels = [1];
    for data in [[0xC0u8], [0xFE]] {
        let mut it = session(&data, 1, 10, &levels, &[]);
        assert_eq!(pull_all(&mut it), vec![Err(unexpected(DATA_BYTE))]);
    }
}

#[test]
fn session_behind_the_end_of_the_data_fails_at_once() {
    let data = [0x80];
    let levels = [1];
    let mut it =
        RapValueIterator::new(ByteReader::at(&data, 7), 1, 1000, 2000, 10, 5, 10, &levels, &[]);
    assert_eq!(it.next(), Some(Err(unexpected(DATA_BYTE))));
    assert_eq!(it.next(), None);
}

#[test]
fn grid_without_a_width_starts_a_row_with_every_cell() {
    let data = [0xC0, 0x01];
    let levels = [1];
    let mut it = session(&data, 2, 0, &levels, &[]);
    let items = pull_all(&mut it);
    let places: Vec<(u32, u32)> =
        items.iter().map(|item| item.clone().unwrap()).map(|c| (c.latitude, c.longitude)).collect();
    assert_eq!(places, vec![(1000, 2000), (995, 2000), (990, 2000)]);
}

#[test]
fn grid_of_one_column() {
    let data = [0xC0, 0x00];
    let levels = [1];
    let mut it = session(&data, 2, 1, &levels, &[]);
    let items = pull_all(&mut it);
    let places: Vec<(u32, u32)> =
        items.iter().map(|item| item.clone().unwrap()).map(|c| (c.latitude, c.longitude)).collect();
    assert_eq!(places, vec![(1000, 2000), (995, 2000)]);
}

#[test]
fn coordinates_wrap_around() {
    let data = [0xC0, 0x02];
    let levels = [1];
    let mut it = RapValueIterator::new(
        ByteReader::new(&data),
        2,
        3,
        u32::MAX - 5,
        2,
        5,
        10,
        &levels,
        &[],
    );
    let items = pull_all(&mut it);
    let places: Vec<(u32, u32)> =
        items.iter().map(|item| item.clone().unwrap()).map(|c| (c.latitude, c.longitude)).collect();
    assert_eq!(
        places,
        vec![
            (3, u32::MAX - 5),
            (3, 4),
            (u32::MAX - 1, u32::MAX - 5),
            (u32::MAX - 1, 4)
        ]
    );
}

#[test]
fn last_row_may_reach_latitude_zero() {
    // The step behind the last cell would leave the range; the cells are not touched by it.
    let data = [0xC0, 0x00];
    let levels = [1];
    let mut it = RapValueIterator::new(ByteReader::new(&data), 2, 5, 0, 1, 5, 10, &levels, &[]);
    assert_eq!(
        pull_all(&mut it),
        vec![
            Ok(LocationValue { latitude: 5, longitude: 0, value: Some(1) }),
            Ok(LocationValue { latitude: 0, longitude: 0, value: Some(1) })
        ]
    );
}
