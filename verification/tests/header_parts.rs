use jma_rap::bytes::ByteReader;
use jma_rap::error::RapReaderError;
use jma_rap::bytes::{INVALID_TEXT, SEEK_OUT_OF_RANGE};
use jma_rap::header::{
    read_comment_part, read_compression_part, read_grid_definition_part,
    read_level_repetitions_part, CommentPart, CompressionPart, GridDefinitionPart,
    LevelRepetition, LevelRepetitionsPart, COMMENT_CREATOR, COMMENT_IDENTIFIER, COMMENT_TRAILER,
    COMMENT_VERSION, COMPRESSION_CODE, GRID_FIRST_RESERVED, GRID_HEIGHT, GRID_H_COUNT,
    GRID_LAST_RESERVED, GRID_LATITUDE, GRID_LONGITUDE, GRID_MAP_TYPE, GRID_V_COUNT, GRID_WIDTH,
    LEVEL_COUNT, LEVEL_VALUE, REPETITION_COUNT, REPETITION_LEVEL, REPETITION_REPETITION,
};

fn unexpected(text: &str) -> RapReaderError {
    RapReaderError::Unexpected(text.to_string())
}

/// The error for `count` missing bytes of the field that `context` names.
fn missing(context: &str, count: usize) -> RapReaderError {
    RapReaderError::Unexpected(format!(
        "{context}ファイルから{count}バイトの読み込みに失敗しました。"
    ))
}

fn within(context: &str, cause: &str) -> RapReaderError {
    RapReaderError::Unexpected(format!("{context}{cause}"))
}

fn wrong_trailer(found: [u8; 3]) -> RapReaderError {
    RapReaderError::Unexpected(format!(
        "コメントの末尾3バイトが`0x0d 0x0a 0x00`ではありません。実際には{found:?}でした。"
    ))
}

fn comment_bytes() -> Vec<u8> {
    let mut bytes = Vec::new();
    bytes.extend_from_slice(b"RAP   ");
    bytes.extend_from_slice(b"1.0  ");
    bytes.extend_from_slice(format!("{:<66}", "radar and rain gauge analysis").as_bytes());
    bytes.extend_from_slice(&[0x0d, 0x0a, 0x00]);
    bytes
}

fn grid_bytes() -> Vec<u8> {
    let mut bytes = vec![0xEE, 0xEE];
    bytes.extend_from_slice(&1u16.to_le_bytes());
    bytes.extend_from_slice(&48_000_000u32.to_le_bytes());
    bytes.extend_from_slice(&118_000_000u32.to_le_bytes());
    bytes.extend_from_slice(&62_500u32.to_le_bytes());
    bytes.extend_from_slice(&50_000u32.to_le_bytes());
    bytes.extend_from_slice(&512u16.to_le_bytes());
    bytes.extend_from_slice(&560u16.to_le_bytes());
    bytes.extend_from_slice(&[0xEE; 16]);
    bytes
}

#[test]
fn comment_is_read_and_trimmed() {
    let mut bytes = comment_bytes();
    bytes.push(0x18);
    let mut reader = ByteReader::new(&bytes);
    assert_eq!(
        read_comment_part(&mut reader),
        Ok(CommentPart {
            identifier: "RAP".to_string(),
            version: "1.0".to_string(),
            creator_comment: "radar and rain gauge analysis".to_string(),
        })
    );
    assert_eq!(reader.position, 80);
}

#[test]
fn comment_must_end_with_its_three_bytes() {
    for (at, byte) in [(77usize, 0x0au8), (78, 0x0d), (79, 0x01), (77, 0x00)] {
        let mut bytes = comment_bytes();
        bytes[at] = byte;
        bytes.extend_from_slice(&[24, 0, 0, 0]);
        let found = [bytes[77], bytes[78], bytes[79]];
        let mut reader = ByteReader::new(&bytes);
        assert_eq!(read_comment_part(&mut reader), Err(wrong_trailer(found)));
        assert_eq!(reader.position, 80);
    }
}

#[test]
fn comment_shows_the_bytes_that_it_ends_with() {
    let mut bytes = vec![0x20u8; 77];
    bytes.extend_from_slice(&[0x0a, 0x0d, 0x00]);
    let mut reader = ByteReader::new(&bytes);
    assert_eq!(
        read_comment_part(&mut reader),
        Err(unexpected(
            "コメントの末尾3バイトが`0x0d 0x0a 0x00`ではありません。実際には[10, 13, 0]でした。"
        ))
    );
    assert_eq!(reader.position, 80);
    let mut bytes = vec![0x20u8; 77];
    bytes.extend_from_slice(&[255, 0, 100]);
    let mut reader = ByteReader::new(&bytes);
    assert_eq!(read_comment_part(&mut reader), Err(wrong_trailer([255, 0, 100])));
}

#[test]
fn comment_names_the_field_that_is_missing() {
    let bytes = comment_bytes();
    let cut = |len: usize| {
        let mut reader = ByteReader::new(&bytes[..len]);
        let read = read_comment_part(&mut reader);
        (read, reader.position)
    };
    assert_eq!(cut(0), (Err(missing(COMMENT_IDENTIFIER, 6)), 0));
    assert_eq!(cut(5), (Err(missing(COMMENT_IDENTIFIER, 6)), 0));
    assert_eq!(cut(6), (Err(missing(COMMENT_VERSION, 5)), 6));
    assert_eq!(cut(10), (Err(missing(COMMENT_VERSION, 5)), 6));
    assert_eq!(cut(11), (Err(missing(COMMENT_CREATOR, 66)), 11));
    assert_eq!(cut(76), (Err(missing(COMMENT_CREATOR, 66)), 11));
    assert_eq!(cut(77), (Err(unexpected(COMMENT_TRAILER)), 77));
    assert_eq!(cut(79), (Err(unexpected(COMMENT_TRAILER)), 77));
    assert!(cut(80).0.is_ok());
    assert_eq!(
        cut(3).0,
        Err(unexpected(
            "コメントの識別子の読み込みに失敗しました。ファイルから6バイトの読み込みに失敗しました。"
        ))
    );
}

#[test]
fn comment_names_the_field_that_is_no_text() {
    for (at, text, end) in
        [(0usize, COMMENT_IDENTIFIER, 6), (6, COMMENT_VERSION, 11), (11, COMMENT_CREATOR, 77)]
    {
        let mut bytes = comment_bytes();
        bytes[at] = 0xFF;
        let mut reader = ByteReader::new(&bytes);
        assert_eq!(read_comment_part(&mut reader), Err(within(text, INVALID_TEXT)));
        assert_eq!(reader.position, end);
    }
}

#[test]
fn grid_definition_is_read_field_by_field() {
    let bytes = grid_bytes();
    let mut reader = ByteReader::new(&bytes);
    assert_eq!(
        read_grid_definition_part(&mut reader),
        Ok(GridDefinitionPart {
            map_type: 1,
            start_grid_latitude: 48_000_000,
            start_grid_longitude: 118_000_000,
            grid_width: 62_500,
            grid_height: 50_000,
            number_of_h_grids: 512,
            number_of_v_grids: 560,
        })
    );
    assert_eq!(reader.position, 40);
}

#[test]
fn grid_definition_refuses_another_map_type() {
    for code in [0u16, 2, 0x0100, 0xFFFF] {
        let mut bytes = grid_bytes();
        bytes[2..4].copy_from_slice(&code.to_le_bytes());
        let mut reader = ByteReader::new(&bytes);
        assert_eq!(
            read_grid_definition_part(&mut reader),
            Err(RapReaderError::MapTypeUnsupported(code))
        );
        assert_eq!(reader.position, 4);
    }
}

#[test]
fn grid_definition_looks_at_the_map_type_before_it_reads_on() {
    let mut bytes = grid_bytes();
    bytes[2] = 7;
    let mut reader = ByteReader::new(&bytes[..4]);
    assert_eq!(read_grid_definition_part(&mut reader), Err(RapReaderError::MapTypeUnsupported(7)));
}

#[test]
fn grid_definition_names_the_field_that_is_missing() {
    let bytes = grid_bytes();
    let cut = |len: usize| {
        let mut reader = ByteReader::new(&bytes[..len]);
        let read = read_grid_definition_part(&mut reader);
        (read, reader.position)
    };
    assert_eq!(cut(0), (Err(missing(GRID_MAP_TYPE, 2)), 2));
    assert_eq!(cut(3), (Err(missing(GRID_MAP_TYPE, 2)), 2));
    assert_eq!(cut(4), (Err(missing(GRID_LATITUDE, 4)), 4));
    assert_eq!(cut(8), (Err(missing(GRID_LONGITUDE, 4)), 8));
    assert_eq!(cut(12), (Err(missing(GRID_WIDTH, 4)), 12));
    assert_eq!(cut(16), (Err(missing(GRID_HEIGHT, 4)), 16));
    assert_eq!(cut(20), (Err(missing(GRID_H_COUNT, 2)), 20));
    assert_eq!(cut(22), (Err(missing(GRID_V_COUNT, 2)), 22));
    assert_eq!(cut(23), (Err(missing(GRID_V_COUNT, 2)), 22));
}

#[test]
fn grid_definition_does_not_need_its_reserved_bytes() {
    let bytes = grid_bytes();
    let mut reader = ByteReader::new(&bytes[..24]);
    assert!(read_grid_definition_part(&mut reader).is_ok());
    assert_eq!(reader.position, 40);
}

#[test]
fn grid_definition_fails_past_the_last_position() {
    let bytes = grid_bytes();
    let mut reader = ByteReader::at(&bytes, u64::MAX - 1);
    assert_eq!(
        read_grid_definition_part(&mut reader),
        Err(within(GRID_FIRST_RESERVED, SEEK_OUT_OF_RANGE))
    );
    assert_eq!(reader.position, u64::MAX - 1);
    assert!(GRID_LAST_RESERVED != GRID_FIRST_RESERVED);
}

#[test]
fn compression_table_is_read() {
    let bytes = [1, 0, 3, 0, 0, 0, 4, 0, 0xFF, 0xFF, 0x99];
    let mut reader = ByteReader::new(&bytes);
    assert_eq!(
        read_compression_part(&mut reader),
        Ok(CompressionPart {
            compression_method: 1,
            number_of_levels: 3,
            value_by_levels: vec![0, 4, 0xFFFF],
        })
    );
    assert_eq!(reader.position, 10);
}

#[test]
fn compression_table_may_be_empty() {
    let bytes = [1, 0, 0, 0];
    let mut reader = ByteReader::new(&bytes);
    assert_eq!(
        read_compression_part(&mut reader),
        Ok(CompressionPart { compression_method: 1, number_of_levels: 0, value_by_levels: vec![] })
    );
}

#[test]
fn compression_table_refuses_another_method() {
    for code in [0u16, 2, 0x0100, 0xFFFF] {
        let mut bytes = vec![0u8; 8];
        bytes[0..2].copy_from_slice(&code.to_le_bytes());
        let mut reader = ByteReader::new(&bytes);
        assert_eq!(
            read_compression_part(&mut reader),
            Err(RapReaderError::CompressionMethodUnsupported(code))
        );
        assert_eq!(reader.position, 2);
    }
}

#[test]
fn compression_table_names_the_field_that_is_missing() {
    let bytes = [1, 0, 3, 0, 0, 0, 4, 0, 0xFF, 0xFF];
    let cut = |len: usize| {
        let mut reader = ByteReader::new(&bytes[..len]);
        let read = read_compression_part(&mut reader);
        (read, reader.position)
    };
    assert_eq!(cut(1), (Err(missing(COMPRESSION_CODE, 2)), 0));
    assert_eq!(cut(2), (Err(missing(LEVEL_COUNT, 2)), 2));
    assert_eq!(cut(3), (Err(missing(LEVEL_COUNT, 2)), 2));
    assert_eq!(cut(4), (Err(missing(LEVEL_VALUE, 2)), 4));
    assert_eq!(cut(7), (Err(missing(LEVEL_VALUE, 2)), 6));
    assert_eq!(cut(9), (Err(missing(LEVEL_VALUE, 2)), 8));
    assert!(cut(10).0.is_ok());
}

#[test]
fn level_repetition_table_is_read() {
    let bytes = [2, 0, 1, 0, 255, 254, 0x99];
    let mut reader = ByteReader::new(&bytes);
    assert_eq!(
        read_level_repetitions_part(&mut reader),
        Ok(LevelRepetitionsPart {
            number_of_level_repetitions: 2,
            level_repetitions: vec![
                LevelRepetition { level: 1, repetition: 0 },
                LevelRepetition { level: 255, repetition: 254 },
            ],
        })
    );
    assert_eq!(reader.position, 6);
}

#[test]
fn level_repetition_table_names_the_field_that_is_missing() {
    let bytes = [2, 0, 1, 0, 255, 254];
    let cut = |len: usize| {
        let mut reader = ByteReader::new(&bytes[..len]);
        let read = read_level_repetitions_part(&mut reader);
        (read, reader.position)
    };
    assert_eq!(cut(0), (Err(missing(REPETITION_COUNT, 2)), 0));
    assert_eq!(cut(1), (Err(missing(REPETITION_COUNT, 2)), 0));
    assert_eq!(cut(2), (Err(missing(REPETITION_LEVEL, 1)), 2));
    assert_eq!(cut(3), (Err(missing(REPETITION_REPETITION, 1)), 3));
    assert_eq!(cut(4), (Err(missing(REPETITION_LEVEL, 1)), 4));
    assert_eq!(cut(5), (Err(missing(REPETITION_REPETITION, 1)), 5));
    assert!(cut(6).0.is_ok());
}

#[test]
fn level_repetition_defaults_to_zero() {
    assert_eq!(LevelRepetition::default(), LevelRepetition { level: 0, repetition: 0 });
}
