//! Little-endian integers on a byte stream held in memory.
//!
//! The integers are decoded by the `byteorder` crate. What its functions
//! return is stated here as plain arithmetic on the bytes.

use crate::types::{IntanError, IoErrorKind};
use byteorder::ByteOrder;
use vstd::prelude::*;
use vstd::slice::slice_subrange;

verus! {

/// The unsigned 16-bit integer stored little-endian at `pos`.
pub open spec fn le_u16(bytes: Seq<u8>, pos: int) -> int {
    bytes[pos] as int + 256 * (bytes[pos + 1] as int)
}

/// The unsigned 32-bit integer stored little-endian at `pos`.
pub open spec fn le_u32(bytes: Seq<u8>, pos: int) -> int {
    bytes[pos] as int + 256 * (bytes[pos + 1] as int) + 65536 * (bytes[pos + 2] as int) + 16777216
        * (bytes[pos + 3] as int)
}

/// The two's-complement reading of a 16-bit pattern.
pub open spec fn signed16(pattern: int) -> int {
    if pattern >= 32768 {
        pattern - 65536
    } else {
        pattern
    }
}

/// The two's-complement reading of a 32-bit pattern.
pub open spec fn signed32(pattern: int) -> int {
    if pattern >= 2147483648 {
        pattern - 4294967296
    } else {
        pattern
    }
}

/// The signed 16-bit integer stored little-endian at `pos`.
pub open spec fn le_i16(bytes: Seq<u8>, pos: int) -> int {
    signed16(le_u16(bytes, pos))
}

/// The signed 32-bit integer stored little-endian at `pos`.
pub open spec fn le_i32(bytes: Seq<u8>, pos: int) -> int {
    signed32(le_u32(bytes, pos))
}

/// Whether `count` bytes lie in `bytes` from `pos` on.
pub open spec fn has_bytes(bytes: Seq<u8>, pos: int, count: int) -> bool {
    0 <= pos && pos + count <= bytes.len()
}

/// Calls `byteorder::LittleEndian::read_u16`. Claims that it returns the
/// first byte plus 256 times the second. It panics on fewer than two bytes.
#[verifier::external_body]
fn le_read_u16(buf: &[u8]) -> (v: u16)
    requires
        buf@.len() >= 2,
    ensures
        v as int == le_u16(buf@, 0),
{
    byteorder::LittleEndian::read_u16(buf)
}

/// Calls `byteorder::LittleEndian::read_i16`. Claims that it returns the
/// two's-complement reading of the first two bytes, the low byte first. It
/// panics on fewer than two bytes.
#[verifier::external_body]
fn le_read_i16(buf: &[u8]) -> (v: i16)
    requires
        buf@.len() >= 2,
    ensures
        v as int == le_i16(buf@, 0),
{
    byteorder::LittleEndian::read_i16(buf)
}

/// Calls `byteorder::LittleEndian::read_u32`. Claims that it returns the
/// first four bytes read as a base-256 number, the lowest digit first. It
/// panics on fewer than four bytes.
#[verifier::external_body]
fn le_read_u32(buf: &[u8]) -> (v: u32)
    requires
        buf@.len() >= 4,
    ensures
        v as int == le_u32(buf@, 0),
{
    byteorder::LittleEndian::read_u32(buf)
}

/// Calls `byteorder::LittleEndian::read_i32`. Claims that it returns the
/// two's-complement reading of the first four bytes, the lowest byte first.
/// It panics on fewer than four bytes.
#[verifier::external_body]
fn le_read_i32(buf: &[u8]) -> (v: i32)
    requires
        buf@.len() >= 4,
    ensures
        v as int == le_i32(buf@, 0),
{
    byteorder::LittleEndian::read_i32(buf)
}

/// The signed 16-bit little-endian integer at `at`.
pub fn i16_at(bytes: &[u8], at: usize) -> (v: i16)
    requires
        has_bytes(bytes@, at as int, 2),
    ensures
        v as int == le_i16(bytes@, at as int),
{
    let total: usize = bytes.len();
    assert(at + 2 <= total);
    le_read_i16(slice_subrange(bytes, at, at + 2))
}

/// The unsigned 16-bit little-endian integer at `at`.
pub fn u16_at(bytes: &[u8], at: usize) -> (v: u16)
    requires
        has_bytes(bytes@, at as int, 2),
    ensures
        v as int == le_u16(bytes@, at as int),
{
    let total: usize = bytes.len();
    assert(at + 2 <= total);
    le_read_u16(slice_subrange(bytes, at, at + 2))
}

/// The signed 32-bit little-endian integer at `at`.
pub fn i32_at(bytes: &[u8], at: usize) -> (v: i32)
    requires
        has_bytes(bytes@, at as int, 4),
    ensures
        v as int == le_i32(bytes@, at as int),
{
    let total: usize = bytes.len();
    assert(at + 4 <= total);
    le_read_i32(slice_subrange(bytes, at, at + 4))
}

/// A byte stream in memory together with the position of the next read.
pub struct ByteReader<'a> {
    /// The whole stream
    pub bytes: &'a [u8],
    /// The position of the next byte to read
    pub pos: usize,
}

impl<'a> ByteReader<'a> {
    /// A reader at the start of `bytes`.
    pub fn new(bytes: &'a [u8]) -> (reader: ByteReader<'a>)
        ensures
            reader.bytes@ == bytes@,
            reader.pos == 0,
    {
        ByteReader { bytes, pos: 0 }
    }

    /// Whether `count` more bytes can be read. Nothing can always be read.
    pub open spec fn can_read(&self, count: int) -> bool {
        count == 0 || has_bytes(self.bytes@, self.pos as int, count)
    }

    /// After a read of `count` bytes: the stream is the same and the
    /// position has moved on by `count`.
    pub open spec fn advanced(&self, before: &ByteReader<'a>, count: int) -> bool {
        self.bytes@ == before.bytes@ && self.pos == before.pos + count
    }

    /// The current position in the stream.
    pub fn stream_position(&self) -> (p: u64)
        ensures
            p == self.pos,
    {
        self.pos as u64
    }

    /// The length of the whole stream.
    pub fn stream_len(&self) -> (n: u64)
        ensures
            n == self.bytes@.len(),
    {
        self.bytes.len() as u64
    }

    /// Takes the next `count` bytes off the stream and returns where they
    /// start.
    pub fn take(&mut self, count: usize) -> (r: Result<usize, IntanError>)
        ensures
            match r {
                Ok(base) => old(self).can_read(count as int) && base == old(self).pos
                    && final(self).advanced(old(self), count as int),
                Err(e) => !old(self).can_read(count as int) && e == IntanError::IoError(
                    IoErrorKind::UnexpectedEof,
                ) && *final(self) == *old(self),
            },
    {
        if count == 0 {
            return Ok(self.pos);
        }
        if self.pos > self.bytes.len() || self.bytes.len() - self.pos < count {
            return Err(IntanError::IoError(IoErrorKind::UnexpectedEof));
        }
        let base: usize = self.pos;
        self.pos = self.pos + count;
        Ok(base)
    }

    /// Reads an unsigned 16-bit little-endian integer.
    pub fn read_u16(&mut self) -> (r: Result<u16, IntanError>)
        ensures
            match r {
                Ok(v) => old(self).can_read(2) && v as int == le_u16(
                    old(self).bytes@,
                    old(self).pos as int,
                ) && final(self).advanced(old(self), 2),
                Err(e) => !old(self).can_read(2) && e == IntanError::IoError(
                    IoErrorKind::UnexpectedEof,
                ) && *final(self) == *old(self),
            },
    {
        if self.pos > self.bytes.len() || self.bytes.len() - self.pos < 2 {
            return Err(IntanError::IoError(IoErrorKind::UnexpectedEof));
        }
        let window = slice_subrange(self.bytes, self.pos, self.pos + 2);
        let v: u16 = le_read_u16(window);
        self.pos = self.pos + 2;
        Ok(v)
    }

    /// Reads a signed 16-bit little-endian integer.
    pub fn read_i16(&mut self) -> (r: Result<i16, IntanError>)
        ensures
            match r {
                Ok(v) => old(self).can_read(2) && v as int == le_i16(
                    old(self).bytes@,
                    old(self).pos as int,
                ) && final(self).advanced(old(self), 2),
                Err(e) => !old(self).can_read(2) && e == IntanError::IoError(
                    IoErrorKind::UnexpectedEof,
                ) && *final(self) == *old(self),
            },
    {
        if self.pos > self.bytes.len() || self.bytes.len() - self.pos < 2 {
            return Err(IntanError::IoError(IoErrorKind::UnexpectedEof));
        }
        let window = slice_subrange(self.bytes, self.pos, self.pos + 2);
        let v: i16 = le_read_i16(window);
        self.pos = self.pos + 2;
        Ok(v)
    }

    /// Reads an unsigned 32-bit little-endian integer.
    pub fn read_u32(&mut self) -> (r: Result<u32, IntanError>)
        ensures
            match r {
                Ok(v) => old(self).can_read(4) && v as int == le_u32(
                    old(self).bytes@,
                    old(self).pos as int,
                ) && final(self).advanced(old(self), 4),
                Err(e) => !old(self).can_read(4) && e == IntanError::IoError(
                    IoErrorKind::UnexpectedEof,
                ) && *final(self) == *old(self),
            },
    {
        if self.pos > self.bytes.len() || self.bytes.len() - self.pos < 4 {
            return Err(IntanError::IoError(IoErrorKind::UnexpectedEof));
        }
        let window = slice_subrange(self.bytes, self.pos, self.pos + 4);
        let v: u32 = le_read_u32(window);
        self.pos = self.pos + 4;
        Ok(v)
    }

    /// Reads a signed 32-bit little-endian integer.
    pub fn read_i32(&mut self) -> (r: Result<i32, IntanError>)
        ensures
            match r {
                Ok(v) => old(self).can_read(4) && v as int == le_i32(
                    old(self).bytes@,
                    old(self).pos as int,
                ) && final(self).advanced(old(self), 4),
                Err(e) => !old(self).can_read(4) && e == IntanError::IoError(
                    IoErrorKind::UnexpectedEof,
                ) && *final(self) == *old(self),
            },
    {
        if self.pos > self.bytes.len() || self.bytes.len() - self.pos < 4 {
            return Err(IntanError::IoError(IoErrorKind::UnexpectedEof));
        }
        let window = slice_subrange(self.bytes, self.pos, self.pos + 4);
        let v: i32 = le_read_i32(window);
        self.pos = self.pos + 4;
        Ok(v)
    }
}

} // verus!
