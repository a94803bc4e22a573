//! Fixed-width readers over the bytes of a file.
//!
//! All numbers are little-endian. Texts have a fixed length in bytes, are
//! encoded as UTF-8 and are padded at the end with white space.
use vstd::prelude::*;
use vstd::slice::{slice_subrange, slice_to_vec};
use vstd::utf8::{decode_utf8, valid_utf8};

use vstd::string::StringExecFns;

use crate::error::{unexpected, RapReaderError, RapReaderErrorView};
use crate::text::{decimal, push_decimal};

verus! {

/// What the text of the error for missing bytes starts with, in front of
/// their number.
pub const SHORT_READ_HEAD: &'static str = "ファイルから";

/// What the text of the error for missing bytes ends with, behind their
/// number.
pub const SHORT_READ_TAIL: &'static str = "バイトの読み込みに失敗しました。";

/// The text of the error for a move past the last position a file can have.
pub const SEEK_OUT_OF_RANGE: &'static str = "ファイルの位置が範囲を超えました。";

/// The text of the error for bytes that are no UTF-8 text.
pub const INVALID_TEXT: &'static str = "utf8文字列に変換できないバイト列が記録されています。";

/// The error for `count` bytes that were asked for and are not all there.
pub open spec fn short_read(count: nat) -> RapReaderErrorView {
    RapReaderErrorView::Unexpected(SHORT_READ_HEAD@ + decimal(count) + SHORT_READ_TAIL@)
}

/// Builds the error for `count` bytes that were asked for and are not all
/// there.
pub fn short_read_error(count: u64) -> (error: RapReaderError)
    ensures
        error@ == short_read(count as nat),
{
    let mut text = String::from_str(SHORT_READ_HEAD);
    push_decimal(&mut text, count);
    text.append(SHORT_READ_TAIL);
    RapReaderError::Unexpected(text)
}

/// Whether `data` holds `count` bytes from position `at` on.
pub open spec fn available(data: Seq<u8>, at: int, count: int) -> bool {
    0 <= at && 0 <= count && at + count <= data.len()
}

/// The 16-bit number stored at position `at`.
pub open spec fn u16_at(data: Seq<u8>, at: int) -> u16
    recommends
        available(data, at, 2),
{
    (data[at] as int + 0x100 * (data[at + 1] as int)) as u16
}

/// The 32-bit number stored at position `at`.
pub open spec fn u32_at(data: Seq<u8>, at: int) -> u32
    recommends
        available(data, at, 4),
{
    (u16_at(data, at) as int + 0x1_0000 * (u16_at(data, at + 2) as int)) as u32
}

/// The 64-bit number stored at position `at`.
pub open spec fn u64_at(data: Seq<u8>, at: int) -> u64
    recommends
        available(data, at, 8),
{
    (u32_at(data, at) as int + 0x1_0000_0000 * (u32_at(data, at + 4) as int)) as u64
}

/// Whether `c` has the Unicode property `White_Space`.
pub open spec fn is_white_space(c: char) -> bool {
    let code = c as u32;
    ||| 0x0009 <= code <= 0x000D
    ||| code == 0x0020
    ||| code == 0x0085
    ||| code == 0x00A0
    ||| code == 0x1680
    ||| 0x2000 <= code <= 0x200A
    ||| code == 0x2028
    ||| code == 0x2029
    ||| code == 0x202F
    ||| code == 0x205F
    ||| code == 0x3000
}

/// `text` without the white space at its end.
pub open spec fn trimmed_end(text: Seq<char>) -> Seq<char>
    decreases text.len(),
{
    if text.len() > 0 && is_white_space(text.last()) {
        trimmed_end(text.drop_last())
    } else {
        text
    }
}

/// The text stored in `count` bytes from position `at` on, without the
/// white space at its end; `None` where the bytes are no UTF-8 text.
pub open spec fn text_at(data: Seq<u8>, at: int, count: int) -> Option<Seq<char>>
    recommends
        available(data, at, count),
{
    let bytes = data.subrange(at, at + count);
    if valid_utf8(bytes) {
        Some(trimmed_end(decode_utf8(bytes)))
    } else {
        None
    }
}

/// Decodes UTF-8 text.
///
/// Trusted: this is `String::from_utf8`, which fails exactly on bytes that
/// are not valid UTF-8 and otherwise gives the text that the bytes encode.
#[verifier::external_body]
fn text_from_utf8(bytes: Vec<u8>) -> (text: Option<String>)
    ensures
        text is Some <==> valid_utf8(bytes@),
        text matches Some(t) ==> t@ == decode_utf8(bytes@),
{
    String::from_utf8(bytes).ok()
}

/// Removes the white space at the end of a text.
///
/// Trusted: this is `str::trim_end`, which removes the longest run of
/// characters with the Unicode property `White_Space` that ends the text.
#[verifier::external_body]
fn text_trim_end(text: &str) -> (trimmed: &str)
    ensures
        trimmed@ == trimmed_end(text@),
{
    text.trim_end()
}

/// A position in the bytes of a file.
///
/// The position may lie behind the last byte, as that of an open file may:
/// only reading there fails.
pub struct ByteReader<'a> {
    /// The bytes of the file.
    pub data: &'a [u8],
    /// The number of bytes in front of the next one to read.
    pub position: u64,
}

impl<'a> ByteReader<'a> {
    /// A reader at the first byte of `data`.
    pub fn new(data: &'a [u8]) -> (reader: Self)
        ensures
            reader.data == data,
            reader.position == 0,
    {
        ByteReader { data, position: 0 }
    }

    /// A reader at the given position of `data`.
    pub fn at(data: &'a [u8], position: u64) -> (reader: Self)
        ensures
            reader.data == data,
            reader.position == position,
    {
        ByteReader { data, position }
    }

    /// Moves to the given position, counted from the first byte.
    pub fn seek(&mut self, position: u64)
        ensures
            final(self).data == old(self).data,
            final(self).position == position,
    {
        self.position = position;
    }

    /// Moves forward over `count` bytes without looking at them.
    ///
    /// The move fails, and the reader stays where it is, exactly where the
    /// new position would not fit in 64 bits.
    pub fn skip(&mut self, count: u64) -> (res: Result<(), RapReaderError>)
        ensures
            final(self).data == old(self).data,
            match res {
                Ok(_) => final(self).position == old(self).position + count,
                Err(e) => {
                    &&& old(self).position + count > u64::MAX
                    &&& e@ == unexpected(SEEK_OUT_OF_RANGE)
                    &&& final(self).position == old(self).position
                },
            },
    {
        match self.position.checked_add(count) {
            Some(position) => {
                self.position = position;
                Ok(())
            },
            None => Err(RapReaderError::unexpected(SEEK_OUT_OF_RANGE)),
        }
    }

    /// Whether `count` bytes can be read at the current position.
    pub fn has(&self, count: u64) -> (enough: bool)
        ensures
            enough == available(self.data@, self.position as int, count as int),
            enough ==> self.position + count <= usize::MAX,
    {
        let length: usize = self.data.len();
        self.position <= length as u64 && count <= length as u64 - self.position
    }
}

/// Reads one byte.
///
/// The read fails, and the reader stays where it is, exactly where no byte
/// is left.
pub fn read_u8(reader: &mut ByteReader) -> (res: Result<u8, RapReaderError>)
    ensures
        final(reader).data == old(reader).data,
        match res {
            Ok(value) => {
                &&& available(old(reader).data@, old(reader).position as int, 1)
                &&& value == old(reader).data@[old(reader).position as int]
                &&& final(reader).position == old(reader).position + 1
                &&& final(reader).position <= usize::MAX
            },
            Err(e) => {
                &&& !available(old(reader).data@, old(reader).position as int, 1)
                &&& e@ == short_read(1)
                &&& final(reader).position == old(reader).position
            },
        },
{
    if !reader.has(1) {
        return Err(short_read_error(1));
    }
    let value: u8 = reader.data[reader.position as usize];
    reader.position = reader.position + 1;
    Ok(value)
}

/// Reads a 16-bit number.
///
/// The read fails, and the reader stays where it is, exactly where fewer
/// than two bytes are left.
pub fn read_u16(reader: &mut ByteReader) -> (res: Result<u16, RapReaderError>)
    ensures
        final(reader).data == old(reader).data,
        match res {
            Ok(value) => {
                &&& available(old(reader).data@, old(reader).position as int, 2)
                &&& value == u16_at(old(reader).data@, old(reader).position as int)
                &&& final(reader).position == old(reader).position + 2
            },
            Err(e) => {
                &&& !available(old(reader).data@, old(reader).position as int, 2)
                &&& e@ == short_read(2)
                &&& final(reader).position == old(reader).position
            },
        },
{
    if !reader.has(2) {
        return Err(short_read_error(2));
    }
    let at: usize = reader.position as usize;
    let low: u16 = reader.data[at] as u16;
    let high: u16 = reader.data[at + 1] as u16;
    reader.position = reader.position + 2;
    Ok(low + high * 0x100)
}

/// Reads a 32-bit number.
///
/// The read fails, and the reader stays where it is, exactly where fewer
/// than four bytes are left.
pub fn read_u32(reader: &mut ByteReader) -> (res: Result<u32, RapReaderError>)
    ensures
        final(reader).data == old(reader).data,
        match res {
            Ok(value) => {
                &&& available(old(reader).data@, old(reader).position as int, 4)
                &&& value == u32_at(old(reader).data@, old(reader).position as int)
                &&& final(reader).position == old(reader).position + 4
            },
            Err(e) => {
                &&& !available(old(reader).data@, old(reader).position as int, 4)
                &&& e@ == short_read(4)
                &&& final(reader).position == old(reader).position
            },
        },
{
    if !reader.has(4) {
        return Err(short_read_error(4));
    }
    let low: u32 = match read_u16(reader) {
        Ok(value) => value as u32,
        Err(e) => return Err(e),
    };
    let high: u32 = match read_u16(reader) {
        Ok(value) => value as u32,
        Err(e) => return Err(e),
    };
    Ok(low + high * 0x1_0000)
}

/// Reads a 64-bit number.
///
/// The read fails, and the reader stays where it is, exactly where fewer
/// than eight bytes are left.
pub fn read_u64(reader: &mut ByteReader) -> (res: Result<u64, RapReaderError>)
    ensures
        final(reader).data == old(reader).data,
        match res {
            Ok(value) => {
                &&& available(old(reader).data@, old(reader).position as int, 8)
                &&& value == u64_at(old(reader).data@, old(reader).position as int)
                &&& final(reader).position == old(reader).position + 8
            },
            Err(e) => {
                &&& !available(old(reader).data@, old(reader).position as int, 8)
                &&& e@ == short_read(8)
                &&& final(reader).position == old(reader).position
            },
        },
{
    if !reader.has(8) {
        return Err(short_read_error(8));
    }
    let low: u64 = match read_u32(reader) {
        Ok(value) => value as u64,
        Err(e) => return Err(e),
    };
    let high: u64 = match read_u32(reader) {
        Ok(value) => value as u64,
        Err(e) => return Err(e),
    };
    Ok(low + high * 0x1_0000_0000)
}

/// Reads a text of `bytes` bytes and removes the white space at its end.
///
/// The read fails, and the reader stays where it is, where fewer than
/// `bytes` bytes are left; it fails behind them where they are no UTF-8 text.
pub fn read_str(reader: &mut ByteReader, bytes: usize) -> (res: Result<String, RapReaderError>)
    ensures
        final(reader).data == old(reader).data,
        match res {
            Ok(text) => {
                &&& available(old(reader).data@, old(reader).position as int, bytes as int)
                &&& text_at(old(reader).data@, old(reader).position as int, bytes as int) == Some(
                    text@,
                )
                &&& final(reader).position == old(reader).position + bytes
            },
            Err(e) => if available(old(reader).data@, old(reader).position as int, bytes as int) {
                &&& text_at(old(reader).data@, old(reader).position as int, bytes as int) is None
                &&& e@ == unexpected(INVALID_TEXT)
                &&& final(reader).position == old(reader).position + bytes
            } else {
                &&& e@ == short_read(bytes as nat)
                &&& final(reader).position == old(reader).position
            },
        },
{
    if !reader.has(bytes as u64) {
        return Err(short_read_error(bytes as u64));
    }
    let from: usize = reader.position as usize;
    let raw: Vec<u8> = slice_to_vec(slice_subrange(reader.data, from, from + bytes));
    reader.position = reader.position + bytes as u64;
    match text_from_utf8(raw) {
        Some(text) => Ok(text_trim_end(text.as_str()).to_owned()),
        None => Err(RapReaderError::unexpected(INVALID_TEXT)),
    }
}

} // verus!
