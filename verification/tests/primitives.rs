use jma_rap::bytes::{
    read_str, read_u16, read_u32, read_u64, read_u8, short_read_error, ByteReader, INVALID_TEXT,
    SEEK_OUT_OF_RANGE,
};
use jma_rap::error::RapReaderError;

fn unexpected(text: &str) -> RapReaderError {
    RapReaderError::Unexpected(text.to_string())
}

fn short_read(count: usize) -> RapReaderError {
    RapReaderError::Unexpected(format!("ファイルから{count}バイトの読み込みに失敗しました。"))
}

#[test]
fn error_for_missing_bytes_names_their_number() {
    assert_eq!(short_read_error(0), short_read(0));
    assert_eq!(short_read_error(7), short_read(7));
    assert_eq!(short_read_error(66), short_read(66));
    assert_eq!(short_read_error(1000), short_read(1000));
    assert_eq!(
        short_read_error(u64::MAX),
        RapReaderError::Unexpected(
            "ファイルから18446744073709551615バイトの読み込みに失敗しました。".to_string()
        )
    );
}

#[test]
fn read_u8_takes_one_byte() {
    let data = [0xAB, 0xCD];
    let mut reader = ByteReader::new(&data);
    assert_eq!(read_u8(&mut reader), Ok(0xAB));
    assert_eq!(reader.position, 1);
    assert_eq!(read_u8(&mut reader), Ok(0xCD));
    assert_eq!(reader.position, 2);
}

#[test]
fn read_u8_fails_at_the_end() {
    let data = [0xAB];
    let mut reader = ByteReader::at(&data, 1);
    assert_eq!(read_u8(&mut reader), Err(short_read(1)));
    assert_eq!(reader.position, 1);
}

#[test]
fn read_u16_is_little_endian() {
    let data = [0x34, 0x12, 0xFF, 0xFF];
    let mut reader = ByteReader::new(&data);
    assert_eq!(read_u16(&mut reader), Ok(0x1234));
    assert_eq!(read_u16(&mut reader), Ok(0xFFFF));
    assert_eq!(reader.position, 4);
}

#[test]
fn read_u16_fails_on_one_byte() {
    let data = [0x34];
    let mut reader = ByteReader::new(&data);
    assert_eq!(read_u16(&mut reader), Err(short_read(2)));
    assert_eq!(reader.position, 0);
}

#[test]
fn read_u32_is_little_endian() {
    let data = [0x78, 0x56, 0x34, 0x12, 0xFF, 0xFF, 0xFF, 0xFF];
    let mut reader = ByteReader::new(&data);
    assert_eq!(read_u32(&mut reader), Ok(0x1234_5678));
    assert_eq!(read_u32(&mut reader), Ok(u32::MAX));
    assert_eq!(reader.position, 8);
}

#[test]
fn read_u32_fails_on_three_bytes() {
    let data = [0x78, 0x56, 0x34];
    let mut reader = ByteReader::new(&data);
    assert_eq!(read_u32(&mut reader), Err(short_read(4)));
    assert_eq!(reader.position, 0);
}

#[test]
fn read_u64_is_little_endian() {
    let data = [0xEF, 0xCD, 0xAB, 0x89, 0x67, 0x45, 0x23, 0x01];
    let mut reader = ByteReader::new(&data);
    assert_eq!(read_u64(&mut reader), Ok(0x0123_4567_89AB_CDEF));
    assert_eq!(reader.position, 8);
    let full = [0xFF; 8];
    let mut reader = ByteReader::new(&full);
    assert_eq!(read_u64(&mut reader), Ok(u64::MAX));
}

#[test]
fn read_u64_fails_on_seven_bytes() {
    let data = [0u8; 7];
    let mut reader = ByteReader::new(&data);
    assert_eq!(read_u64(&mut reader), Err(short_read(8)));
    assert_eq!(reader.position, 0);
}

#[test]
fn reads_follow_one_another() {
    let data = [0x01, 0x02, 0x03, 0x04, 0x05, 0x06, 0x07];
    let mut reader = ByteReader::new(&data);
    assert_eq!(read_u8(&mut reader), Ok(0x01));
    assert_eq!(read_u16(&mut reader), Ok(0x0302));
    assert_eq!(read_u32(&mut reader), Ok(0x0706_0504));
    assert_eq!(read_u8(&mut reader), Err(short_read(1)));
}

#[test]
fn skip_may_pass_the_end() {
    let data = [0x01, 0x02];
    let mut reader = ByteReader::new(&data);
    assert_eq!(reader.skip(8), Ok(()));
    assert_eq!(reader.position, 8);
    assert!(!reader.has(1));
    assert_eq!(read_u8(&mut reader), Err(short_read(1)));
}

#[test]
fn skip_fails_past_the_last_position() {
    let data = [0x01, 0x02];
    let mut reader = ByteReader::at(&data, u64::MAX - 3);
    assert_eq!(reader.skip(4), Err(unexpected(SEEK_OUT_OF_RANGE)));
    assert_eq!(reader.position, u64::MAX - 3);
    assert_eq!(reader.skip(3), Ok(()));
    assert_eq!(reader.position, u64::MAX);
}

#[test]
fn seek_moves_to_a_position() {
    let data = [0x01, 0x02, 0x03];
    let mut reader = ByteReader::new(&data);
    reader.seek(2);
    assert_eq!(read_u8(&mut reader), Ok(0x03));
    reader.seek(0);
    assert_eq!(read_u8(&mut reader), Ok(0x01));
}

#[test]
fn has_counts_the_bytes_that_are_left() {
    let data = [0x01, 0x02, 0x03];
    let reader = ByteReader::at(&data, 1);
    assert!(reader.has(0));
    assert!(reader.has(2));
    assert!(!reader.has(3));
    let behind = ByteReader::at(&data, 4);
    assert!(!behind.has(0));
}

#[test]
fn read_str_removes_the_spaces_at_the_end() {
    let data = *b"RAP   next";
    let mut reader = ByteReader::new(&data);
    assert_eq!(read_str(&mut reader, 6), Ok("RAP".to_string()));
    assert_eq!(reader.position, 6);
    assert_eq!(read_str(&mut reader, 4), Ok("next".to_string()));
}

#[test]
fn read_str_keeps_the_spaces_in_front_and_inside() {
    let data = *b"  a b \t\r\n";
    let mut reader = ByteReader::new(&data);
    assert_eq!(read_str(&mut reader, 9), Ok("  a b".to_string()));
}

#[test]
fn read_str_removes_unicode_white_space() {
    // "x", then U+3000, U+00A0, U+2028 and U+0085.
    let data = [0x78, 0xE3, 0x80, 0x80, 0xC2, 0xA0, 0xE2, 0x80, 0xA8, 0xC2, 0x85];
    let mut reader = ByteReader::new(&data);
    assert_eq!(read_str(&mut reader, 11), Ok("x".to_string()));
}

#[test]
fn read_str_keeps_a_zero_width_space() {
    // U+200B is not white space.
    let data = [0x78, 0xE2, 0x80, 0x8B];
    let mut reader = ByteReader::new(&data);
    assert_eq!(read_str(&mut reader, 4), Ok("x\u{200B}".to_string()));
}

#[test]
fn read_str_of_spaces_is_empty() {
    let data = *b"     ";
    let mut reader = ByteReader::new(&data);
    assert_eq!(read_str(&mut reader, 5), Ok(String::new()));
}

#[test]
fn read_str_of_no_bytes_is_empty() {
    let data = *b"abc";
    let mut reader = ByteReader::at(&data, 3);
    assert_eq!(read_str(&mut reader, 0), Ok(String::new()));
    assert_eq!(reader.position, 3);
}

#[test]
fn read_str_decodes_utf8() {
    let data = "雨量  ".as_bytes().to_vec();
    let mut reader = ByteReader::new(&data);
    assert_eq!(read_str(&mut reader, 8), Ok("雨量".to_string()));
}

#[test]
fn read_str_refuses_bytes_that_are_no_text() {
    let data = [0x41, 0xFF, 0x42];
    let mut reader = ByteReader::new(&data);
    assert_eq!(read_str(&mut reader, 3), Err(unexpected(INVALID_TEXT)));
    assert_eq!(reader.position, 3);
}

#[test]
fn read_str_refuses_a_character_cut_in_two() {
    let data = "雨".as_bytes().to_vec();
    let mut reader = ByteReader::new(&data);
    assert_eq!(read_str(&mut reader, 2), Err(unexpected(INVALID_TEXT)));
}

#[test]
fn read_str_fails_on_missing_bytes() {
    let data = *b"RAP";
    let mut reader = ByteReader::new(&data);
    assert_eq!(read_str(&mut reader, 6), Err(short_read(6)));
    assert_eq!(reader.position, 0);
}

#[test]
fn read_str_removes_exactly_the_white_space_of_unicode() {
    let white = |c: char| {
        matches!(
            c as u32,
            0x0009..=0x000D
                | 0x0020
                | 0x0085
                | 0x00A0
                | 0x1680
                | 0x2000..=0x200A
                | 0x2028
                | 0x2029
                | 0x202F
                | 0x205F
                | 0x3000
        )
    };
    let mut removed = 0;
    for code in 0..=0x10FFFFu32 {
        let Some(c) = char::from_u32(code) else { continue };
        let text = format!("x{c}");
        let mut reader = ByteReader::new(text.as_bytes());
        let read = read_str(&mut reader, text.len()).unwrap();
        if white(c) {
            assert_eq!(read, "x", "U+{code:04X}");
            removed += 1;
        } else {
            assert_eq!(read, text, "U+{code:04X}");
        }
    }
    assert_eq!(removed, 25);
}
