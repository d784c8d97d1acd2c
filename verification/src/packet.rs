//! The frame buffer: a growable byte buffer with a read cursor, written and
//! read in big-endian integers and length-prefixed strings.

use crate::error::PacketError;
use crate::wire::{
    be16, be32, be64, i16_from_be, i32_from_be, i64_from_be, lemma_be16_wraps, put_i16_be,
    put_i32_be, put_i64_be, read_bool_at, read_byte_at, read_bytes_at, read_i16_at, read_i32_at,
    read_i64_at, read_opt_string_at, read_string_at, wire_bool, wire_opt_string, wire_string,
};
use std::string::FromUtf8Error;
use vstd::prelude::*;
use vstd::slice::{slice_subrange, slice_to_vec};
use vstd::utf8::{encode_utf8, encode_utf8_decode_utf8, valid_utf8};

verus! {

/// `String::from_utf8` of std: it accepts exactly the byte vectors that are
/// valid UTF-8, and the string it returns is made of the very bytes given.
pub assume_specification[ String::from_utf8 ](bytes: Vec<u8>) -> (res: Result<
    String,
    FromUtf8Error,
>)
    ensures
        res is Ok <==> valid_utf8(bytes@),
        res matches Ok(s) ==> encode_utf8(s@) == bytes@,
;

/// A byte buffer and the position of the next read.
pub struct Packet {
    pub payload: Vec<u8>,
    pub offset: usize,
}

/// The length of a string as its 16-bit prefix carries it: the 16 low bits,
/// read as a signed integer.
fn length_prefix(len: usize) -> (n: i16)
    ensures
        be16(n as int) == be16(len as int),
{
    let low: usize = len % 0x1_0000;
    proof {
        lemma_be16_wraps(low as int, (len / 0x1_0000) as int);
        lemma_be16_wraps(low as int, -1);
    }
    if low >= 0x8000 {
        (low as i32 - 0x1_0000) as i16
    } else {
        low as i16
    }
}

impl Packet {
    /// The cursor lies inside the buffer or at its end.
    pub open spec fn wf(&self) -> bool {
        self.offset <= self.payload@.len()
    }

    /// How many bytes lie behind the cursor; negative where the cursor has
    /// been set beyond the end.
    pub open spec fn remaining(&self) -> int {
        self.payload@.len() - self.offset
    }

    /// An empty buffer with the cursor at its start.
    pub fn new() -> (out: Self)
        ensures
            out.payload@ == Seq::<u8>::empty(),
            out.offset == 0,
            out.wf(),
    {
        Self { payload: Vec::new(), offset: 0 }
    }

    /// Appends `value` in two bytes, most significant first.
    pub fn write_i16(&mut self, value: i16) -> (res: Result<(), PacketError>)
        ensures
            res is Ok,
            final(self).payload@ == old(self).payload@ + be16(value as int),
            final(self).offset == old(self).offset,
            old(self).wf() ==> final(self).wf(),
    {
        put_i16_be(&mut self.payload, value);
        Ok(())
    }

    /// Appends `value` in four bytes, most significant first.
    pub fn write_i32(&mut self, value: i32) -> (res: Result<(), PacketError>)
        ensures
            res is Ok,
            final(self).payload@ == old(self).payload@ + be32(value as int),
            final(self).offset == old(self).offset,
            old(self).wf() ==> final(self).wf(),
    {
        put_i32_be(&mut self.payload, value);
        Ok(())
    }

    /// Appends `value` in eight bytes, most significant first.
    pub fn write_i64(&mut self, value: i64) -> (res: Result<(), PacketError>)
        ensures
            res is Ok,
            final(self).payload@ == old(self).payload@ + be64(value as int),
            final(self).offset == old(self).offset,
            old(self).wf() ==> final(self).wf(),
    {
        put_i64_be(&mut self.payload, value);
        Ok(())
    }

    /// Appends `bytes` as they are.
    pub fn write_bytes(&mut self, bytes: &[u8]) -> (res: Result<(), PacketError>)
        ensures
            res is Ok,
            final(self).payload@ == old(self).payload@ + bytes@,
            final(self).offset == old(self).offset,
            old(self).wf() ==> final(self).wf(),
    {
        self.payload.extend_from_slice(bytes);
        assert(self.payload@ =~= old(self).payload@ + bytes@);
        Ok(())
    }

    /// Appends one byte.
    pub fn write_byte(&mut self, value: u8) -> (res: Result<(), PacketError>)
        ensures
            res is Ok,
            final(self).payload@ == old(self).payload@ + seq![value],
            final(self).offset == old(self).offset,
            old(self).wf() ==> final(self).wf(),
    {
        self.payload.push(value);
        assert(self.payload@ =~= old(self).payload@ + seq![value]);
        Ok(())
    }

    /// Appends a plain string: its byte length in 16 bits, then its UTF-8
    /// bytes. The length is not validated: of one that does not fit in 16
    /// bits only the low bits are written.
    pub fn write_string(&mut self, s: &str) -> (res: Result<(), PacketError>)
        ensures
            res is Ok,
            final(self).payload@ == old(self).payload@ + wire_string(s@),
            final(self).offset == old(self).offset,
            old(self).wf() ==> final(self).wf(),
    {
        let bytes = s.as_bytes();
        let _ = self.write_i16(length_prefix(bytes.len()));
        let _ = self.write_bytes(bytes);
        assert(self.payload@ =~= old(self).payload@ + wire_string(s@));
        Ok(())
    }

    /// Appends an optional string: for the empty text a single `false`
    /// byte, else a `true` byte and the plain string.
    pub fn write_is_string(&mut self, s: &str) -> (res: Result<(), PacketError>)
        ensures
            res is Ok,
            final(self).payload@ == old(self).payload@ + wire_opt_string(s@),
            final(self).offset == old(self).offset,
            old(self).wf() ==> final(self).wf(),
    {
        if s.is_empty() {
            return self.write_bool(false);
        }
        let _ = self.write_bool(true);
        let _ = self.write_string(s);
        assert(self.payload@ =~= old(self).payload@ + wire_opt_string(s@));
        Ok(())
    }

    /// Appends a boolean as one byte, 1 or 0.
    pub fn write_bool(&mut self, value: bool) -> (res: Result<(), PacketError>)
        ensures
            res is Ok,
            final(self).payload@ == old(self).payload@ + wire_bool(value),
            final(self).offset == old(self).offset,
            old(self).wf() ==> final(self).wf(),
    {
        self.payload.push(if value { 1u8 } else { 0u8 });
        assert(self.payload@ =~= old(self).payload@ + wire_bool(value));
        Ok(())
    }

    /// Reads `len` bytes at the cursor and moves the cursor behind them.
    /// Fails with `OutOfBounds`, the cursor unmoved, where fewer than `len`
    /// bytes remain.
    pub fn read_bytes(&mut self, len: usize) -> (res: Result<Vec<u8>, PacketError>)
        ensures
            final(self).payload@ == old(self).payload@,
            old(self).wf() ==> final(self).wf(),
            res is Ok <==> len <= old(self).remaining(),
            match res {
                Ok(bytes) => {
                    &&& bytes@ == old(self).payload@.subrange(
                        old(self).offset as int,
                        old(self).offset + len,
                    )
                    &&& final(self).offset == old(self).offset + len
                },
                Err(e) => e == PacketError::OutOfBounds && final(self).offset == old(self).offset,
            },
            match res {
                Ok(bytes) => read_bytes_at(old(self).payload@, old(self).offset as int, len as int)
                    == Ok::<_, PacketError>((bytes@, final(self).offset as int)),
                Err(e) => read_bytes_at(old(self).payload@, old(self).offset as int, len as int)
                    == Err::<(Seq<u8>, int), _>(e),
            },
    {
        proof {
            reveal(read_bytes_at);
        }
        let total = self.payload.len();
        let end = match self.offset.checked_add(len) {
            Some(e) => e,
            None => return Err(PacketError::OutOfBounds),
        };
        if end > total {
            return Err(PacketError::OutOfBounds);
        }
        let bytes = slice_to_vec(slice_subrange(self.payload.as_slice(), self.offset, end));
        self.offset = end;
        Ok(bytes)
    }

    /// Reads one byte as a boolean: any value but 0 is true.
    pub fn read_bool(&mut self) -> (res: Result<bool, PacketError>)
        ensures
            final(self).payload@ == old(self).payload@,
            old(self).wf() ==> final(self).wf(),
            res is Ok <==> 1 <= old(self).remaining(),
            match res {
                Ok(v) => read_bool_at(old(self).payload@, old(self).offset as int) == Ok::<
                    _,
                    PacketError,
                >((v, final(self).offset as int)),
                Err(e) => e == PacketError::OutOfBounds && final(self).offset == old(self).offset
                    && read_bool_at(old(self).payload@, old(self).offset as int) == Err::<
                    (bool, int),
                    _,
                >(e),
            },
    {
        let bytes = self.read_bytes(1)?;
        Ok(bytes[0] != 0)
    }

    /// Reads one byte.
    pub fn read_byte(&mut self) -> (res: Result<u8, PacketError>)
        ensures
            final(self).payload@ == old(self).payload@,
            old(self).wf() ==> final(self).wf(),
            res is Ok <==> 1 <= old(self).remaining(),
            match res {
                Ok(v) => read_byte_at(old(self).payload@, old(self).offset as int) == Ok::<
                    _,
                    PacketError,
                >((v, final(self).offset as int)),
                Err(e) => e == PacketError::OutOfBounds && final(self).offset == old(self).offset
                    && read_byte_at(old(self).payload@, old(self).offset as int) == Err::<
                    (u8, int),
                    _,
                >(e),
            },
    {
        let bytes = self.read_bytes(1)?;
        Ok(bytes[0])
    }

    /// Reads a signed 16-bit integer, most significant byte first.
    pub fn read_i16(&mut self) -> (res: Result<i16, PacketError>)
        ensures
            final(self).payload@ == old(self).payload@,
            old(self).wf() ==> final(self).wf(),
            res is Ok <==> 2 <= old(self).remaining(),
            match res {
                Ok(v) => read_i16_at(old(self).payload@, old(self).offset as int) == Ok::<
                    _,
                    PacketError,
                >((v, final(self).offset as int)),
                Err(e) => e == PacketError::OutOfBounds && final(self).offset == old(self).offset
                    && read_i16_at(old(self).payload@, old(self).offset as int) == Err::<
                    (i16, int),
                    _,
                >(e),
            },
    {
        let bytes = self.read_bytes(2)?;
        Ok(i16_from_be(bytes.as_slice()))
    }

    /// Reads a signed 32-bit integer, most significant byte first. Where
    /// fewer than four bytes remain it fails with `OutOfBounds` and leaves
    /// the cursor where it was, however often it is asked.
    pub fn read_i32(&mut self) -> (res: Result<i32, PacketError>)
        ensures
            final(self).payload@ == old(self).payload@,
            old(self).wf() ==> final(self).wf(),
            res is Ok <==> 4 <= old(self).remaining(),
            match res {
                Ok(v) => read_i32_at(old(self).payload@, old(self).offset as int) == Ok::<
                    _,
                    PacketError,
                >((v, final(self).offset as int)),
                Err(e) => e == PacketError::OutOfBounds && final(self).offset == old(self).offset
                    && read_i32_at(old(self).payload@, old(self).offset as int) == Err::<
                    (i32, int),
                    _,
                >(e),
            },
    {
        let bytes = self.read_bytes(4)?;
        Ok(i32_from_be(bytes.as_slice()))
    }

    /// Reads a signed 64-bit integer, most significant byte first.
    pub fn read_i64(&mut self) -> (res: Result<i64, PacketError>)
        ensures
            final(self).payload@ == old(self).payload@,
            old(self).wf() ==> final(self).wf(),
            res is Ok <==> 8 <= old(self).remaining(),
            match res {
                Ok(v) => read_i64_at(old(self).payload@, old(self).offset as int) == Ok::<
                    _,
                    PacketError,
                >((v, final(self).offset as int)),
                Err(e) => e == PacketError::OutOfBounds && final(self).offset == old(self).offset
                    && read_i64_at(old(self).payload@, old(self).offset as int) == Err::<
                    (i64, int),
                    _,
                >(e),
            },
    {
        let bytes = self.read_bytes(8)?;
        Ok(i64_from_be(bytes.as_slice()))
    }

    /// Reads a plain string: a 16-bit length, then that many bytes, which
    /// must be UTF-8. Fails with `OutOfBounds` where the length or the bytes
    /// are not all there, with `Utf8Error` where the bytes are no UTF-8; the
    /// cursor then stays where it was.
    pub fn read_string(&mut self) -> (res: Result<String, PacketError>)
        ensures
            final(self).payload@ == old(self).payload@,
            old(self).wf() ==> final(self).wf(),
            match res {
                Ok(s) => read_string_at(old(self).payload@, old(self).offset as int) == Ok::<
                    _,
                    PacketError,
                >((s@, final(self).offset as int)),
                Err(e) => final(self).offset == old(self).offset && read_string_at(
                    old(self).payload@,
                    old(self).offset as int,
                ) == Err::<(Seq<char>, int), _>(e),
            },
    {
        let start = self.offset;
        let n = self.read_i16()?;
        if n < 0 {
            self.offset = start;
            return Err(PacketError::OutOfBounds);
        }
        let raw = match self.read_bytes(n as usize) {
            Ok(raw) => raw,
            Err(e) => {
                self.offset = start;
                return Err(e);
            },
        };
        let ghost bytes = raw@;
        match String::from_utf8(raw) {
            Ok(s) => {
                proof {
                    encode_utf8_decode_utf8(s@);
                }
                Ok(s)
            },
            Err(e) => {
                self.offset = start;
                Err(PacketError::from(e))
            },
        }
    }

    /// Reads an optional string: a presence flag, and a plain string only
    /// where the flag is set; without it the text is empty. On failure the
    /// cursor stays where it was.
    pub fn read_is_string(&mut self) -> (res: Result<String, PacketError>)
        ensures
            final(self).payload@ == old(self).payload@,
            old(self).wf() ==> final(self).wf(),
            match res {
                Ok(s) => read_opt_string_at(old(self).payload@, old(self).offset as int) == Ok::<
                    _,
                    PacketError,
                >((s@, final(self).offset as int)),
                Err(e) => final(self).offset == old(self).offset && read_opt_string_at(
                    old(self).payload@,
                    old(self).offset as int,
                ) == Err::<(Seq<char>, int), _>(e),
            },
    {
        let start = self.offset;
        if !self.read_bool()? {
            return Ok(String::new());
        }
        match self.read_string() {
            Ok(s) => Ok(s),
            Err(e) => {
                self.offset = start;
                Err(e)
            },
        }
    }
}

} // verus!
