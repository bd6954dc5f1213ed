//! A little-endian reader over a borrowed byte buffer, with the slightly
//! higher-level reads the blueprint format needs: variable-width lengths,
//! length-prefixed strings, and marker bytes.

use vstd::prelude::*;
use vstd::slice::slice_index_get;
use vstd::slice::slice_subrange;
use vstd::string::StringSliceAdditionalSpecFns;
use vstd::utf8::valid_utf8;

verus! {

/// What a read can fail with.
#[derive(Debug, PartialEq, Eq, Structural, Clone, Copy)]
pub enum ReadError {
    /// The requested bytes run past the end of the buffer.
    OutOfRange,
    /// A boolean byte held a value other than 0 and 1.
    InvalidBool { position: usize, value: u8 },
    /// A marker byte was not the expected one.
    UnexpectedByte { position: usize, expected: u8, actual: u8 },
    /// The bytes of a string are not a valid text encoding.
    InvalidString,
}

/// The unsigned value of two little-endian bytes.
pub open spec fn le16(lo: u8, hi: u8) -> u16 {
    (lo + hi * 256) as u16
}

/// The unsigned value of four little-endian bytes.
pub open spec fn le32(b0: u8, b1: u8, b2: u8, b3: u8) -> u32 {
    (b0 + b1 * 256 + b2 * 65536 + b3 * 16777216) as u32
}

/// How reading a variable-width length at `p` comes out: the value and the
/// position after it, or the position where the read fails. A length is one
/// byte, unless that byte is 255, in which case four little-endian bytes
/// follow with the real length.
pub enum LenOut {
    Len { value: int, after: int },
    Fail { after: int },
}

pub open spec fn length_out(b: Seq<u8>, p: int) -> LenOut {
    if p < 0 || p >= b.len() {
        LenOut::Fail { after: p }
    } else if b[p] != 255 {
        LenOut::Len { value: b[p] as int, after: p + 1 }
    } else if p + 5 <= b.len() {
        LenOut::Len {
            value: le32(b[p + 1], b[p + 2], b[p + 3], b[p + 4]) as int,
            after: p + 5,
        }
    } else {
        LenOut::Fail { after: p + 1 }
    }
}

/// Relies on core::str::from_utf8: it accepts exactly the valid encodings
/// and returns the text over those very bytes.
#[verifier::external_body]
fn bytes_to_str(v: &[u8]) -> (r: Option<&str>)
    ensures
        match r {
            Some(s) => s.spec_bytes() == v@ && valid_utf8(v@),
            None => !valid_utf8(v@),
        },
{
    core::str::from_utf8(v).ok()
}

/// A reader over a borrowed buffer. `position` is the index of the next
/// byte to read.
pub struct Reader<'a> {
    base: &'a [u8],
    position: usize,
}

impl<'a> Reader<'a> {
    /// The bytes the reader walks.
    pub closed spec fn bytes(&self) -> Seq<u8> {
        self.base@
    }

    /// The index of the next byte to read.
    pub closed spec fn pos(&self) -> int {
        self.position as int
    }

    /// A reader at the start of the buffer.
    pub fn new(base: &'a [u8]) -> (r: Self)
        ensures
            r.bytes() == base@,
            r.pos() == 0,
    {
        Self { base, position: 0 }
    }

    /// The index of the next byte to read.
    pub fn position(&self) -> (r: usize)
        ensures
            r == self.pos(),
    {
        self.position
    }

    /// Moves to an absolute position; only positions strictly inside the
    /// buffer are accepted.
    pub fn set_position(&mut self, position: usize) -> (r: Result<(), ReadError>)
        ensures
            final(self).bytes() == old(self).bytes(),
            if position < old(self).bytes().len() {
                r is Ok && final(self).pos() == position
            } else {
                r == Err::<(), ReadError>(ReadError::OutOfRange) && final(self).pos() == old(
                    self,
                ).pos()
            },
    {
        if position >= self.base.len() {
            return Err(ReadError::OutOfRange);
        }
        self.position = position;
        Ok(())
    }

    /// Moves forward; the new position must stay strictly inside the buffer.
    pub fn skip(&mut self, length: usize) -> (r: Result<(), ReadError>)
        ensures
            final(self).bytes() == old(self).bytes(),
            if old(self).pos() + length < old(self).bytes().len() {
                r is Ok && final(self).pos() == old(self).pos() + length
            } else {
                r == Err::<(), ReadError>(ReadError::OutOfRange) && final(self).pos() == old(
                    self,
                ).pos()
            },
    {
        if self.position >= self.base.len() || length >= self.base.len() - self.position {
            return Err(ReadError::OutOfRange);
        }
        self.position = self.position + length;
        Ok(())
    }

    /// Reads one byte.
    pub fn read_u8(&mut self) -> (r: Result<u8, ReadError>)
        ensures
            final(self).bytes() == old(self).bytes(),
            if old(self).pos() < old(self).bytes().len() {
                r == Ok::<u8, ReadError>(old(self).bytes()[old(self).pos()]) && final(self).pos()
                    == old(self).pos() + 1
            } else {
                r == Err::<u8, ReadError>(ReadError::OutOfRange) && final(self).pos() == old(
                    self,
                ).pos()
            },
    {
        if self.position >= self.base.len() {
            return Err(ReadError::OutOfRange);
        }
        let result = *slice_index_get(self.base, self.position);
        self.position = self.position + 1;
        Ok(result)
    }

    /// Reads one byte that must be 0 or 1.
    pub fn read_bool(&mut self) -> (r: Result<bool, ReadError>)
        ensures
            final(self).bytes() == old(self).bytes(),
            ({
                let b = old(self).bytes();
                let p = old(self).pos();
                if p >= b.len() {
                    r == Err::<bool, ReadError>(ReadError::OutOfRange) && final(self).pos() == p
                } else if b[p] == 0 || b[p] == 1 {
                    r == Ok::<bool, ReadError>(b[p] == 1) && final(self).pos() == p + 1
                } else {
                    r == Err::<bool, ReadError>(
                        ReadError::InvalidBool {
                            position: p as usize,
                            value: b[p],
                        },
                    ) && final(self).pos() == p
                }
            }),
    {
        if self.position >= self.base.len() {
            return Err(ReadError::OutOfRange);
        }
        let value = *slice_index_get(self.base, self.position);
        if value != 0 && value != 1 {
            return Err(ReadError::InvalidBool { position: self.position, value });
        }
        self.position = self.position + 1;
        Ok(value != 0)
    }

    /// Reads two little-endian bytes as an unsigned value.
    pub fn read_u16(&mut self) -> (r: Result<u16, ReadError>)
        ensures
            final(self).bytes() == old(self).bytes(),
            ({
                let b = old(self).bytes();
                let p = old(self).pos();
                if p + 2 <= b.len() {
                    r == Ok::<u16, ReadError>(le16(b[p], b[p + 1])) && final(self).pos() == p + 2
                } else {
                    r == Err::<u16, ReadError>(ReadError::OutOfRange) && final(self).pos() == p
                }
            }),
    {
        if self.base.len() < 2 || self.position >= self.base.len() - 1 {
            return Err(ReadError::OutOfRange);
        }
        let lo = *slice_index_get(self.base, self.position);
        let hi = *slice_index_get(self.base, self.position + 1);
        let result: u16 = (lo as u16) + (hi as u16) * 256;
        self.position = self.position + 2;
        Ok(result)
    }

    /// Reads two little-endian bytes as a signed value.
    pub fn read_i16(&mut self) -> (r: Result<i16, ReadError>)
        ensures
            final(self).bytes() == old(self).bytes(),
            ({
                let b = old(self).bytes();
                let p = old(self).pos();
                if p + 2 <= b.len() {
                    r == Ok::<i16, ReadError>(le16(b[p], b[p + 1]) as i16) && final(self).pos()
                        == p + 2
                } else {
                    r == Err::<i16, ReadError>(ReadError::OutOfRange) && final(self).pos() == p
                }
            }),
    {
        match self.read_u16() {
            Ok(v) => Ok(v as i16),
            Err(e) => Err(e),
        }
    }

    /// Reads four little-endian bytes as an unsigned value.
    pub fn read_u32(&mut self) -> (r: Result<u32, ReadError>)
        ensures
            final(self).bytes() == old(self).bytes(),
            ({
                let b = old(self).bytes();
                let p = old(self).pos();
                if p + 4 <= b.len() {
                    r == Ok::<u32, ReadError>(le32(b[p], b[p + 1], b[p + 2], b[p + 3])) && final(self).pos() == p + 4
                } else {
                    r == Err::<u32, ReadError>(ReadError::OutOfRange) && final(self).pos() == p
                }
            }),
    {
        if self.base.len() < 4 || self.position >= self.base.len() - 3 {
            return Err(ReadError::OutOfRange);
        }
        let b0 = *slice_index_get(self.base, self.position);
        let b1 = *slice_index_get(self.base, self.position + 1);
        let b2 = *slice_index_get(self.base, self.position + 2);
        let b3 = *slice_index_get(self.base, self.position + 3);
        let result: u32 = (b0 as u32) + (b1 as u32) * 256 + (b2 as u32) * 65536 + (b3 as u32)
            * 16777216;
        self.position = self.position + 4;
        Ok(result)
    }

    /// Reads four little-endian bytes as a signed value.
    pub fn read_i32(&mut self) -> (r: Result<i32, ReadError>)
        ensures
            final(self).bytes() == old(self).bytes(),
            ({
                let b = old(self).bytes();
                let p = old(self).pos();
                if p + 4 <= b.len() {
                    r == Ok::<i32, ReadError>(le32(b[p], b[p + 1], b[p + 2], b[p + 3]) as i32)
                        && final(self).pos() == p + 4
                } else {
                    r == Err::<i32, ReadError>(ReadError::OutOfRange) && final(self).pos() == p
                }
            }),
    {
        match self.read_u32() {
            Ok(v) => Ok(v as i32),
            Err(e) => Err(e),
        }
    }

    /// Reads a variable-width length: one byte, or 255 followed by the real
    /// length in four little-endian bytes.
    pub fn read_length(&mut self) -> (r: Result<usize, ReadError>)
        ensures
            final(self).bytes() == old(self).bytes(),
            match length_out(old(self).bytes(), old(self).pos()) {
                LenOut::Len { value, after } => r == Ok::<usize, ReadError>(value as usize)
                    && final(self).pos() == after,
                LenOut::Fail { after } => r == Err::<usize, ReadError>(ReadError::OutOfRange)
                    && final(self).pos() == after,
            },
    {
        let maybe_length = match self.read_u8() {
            Ok(v) => v,
            Err(e) => {
                return Err(e);
            },
        };
        if maybe_length == 0xFF {
            match self.read_u32() {
                Ok(v) => Ok(v as usize),
                Err(e) => Err(e),
            }
        } else {
            Ok(maybe_length as usize)
        }
    }

    /// Reads a length-prefixed string, borrowed from the buffer.
    pub fn read_str(&mut self) -> (r: Result<&'a str, ReadError>)
        ensures
            final(self).bytes() == old(self).bytes(),
            match length_out(old(self).bytes(), old(self).pos()) {
                LenOut::Fail { after } => r == Err::<&'a str, ReadError>(ReadError::OutOfRange)
                    && final(self).pos() == after,
                LenOut::Len { value, after } => {
                    let b = old(self).bytes();
                    if after + value > b.len() {
                        r == Err::<&'a str, ReadError>(ReadError::OutOfRange) && final(self).pos() == after
                    } else if !valid_utf8(b.subrange(after, after + value)) {
                        r == Err::<&'a str, ReadError>(ReadError::InvalidString) && final(self).pos() == after
                    } else {
                        r matches Ok(s) && s.spec_bytes() == b.subrange(after, after + value)
                            && final(self).pos() == after + value
                    }
                },
            },
    {
        let length = match self.read_length() {
            Ok(v) => v,
            Err(e) => {
                return Err(e);
            },
        };
        if length > self.base.len() - self.position || self.position > self.base.len() {
            return Err(ReadError::OutOfRange);
        }
        let raw = slice_subrange(self.base, self.position, self.position + length);
        match bytes_to_str(raw) {
            Some(s) => {
                self.position = self.position + length;
                Ok(s)
            },
            None => Err(ReadError::InvalidString),
        }
    }

    /// Reads one byte and demands it be the given marker.
    pub fn expect(&mut self, expect_byte: u8) -> (r: Result<(), ReadError>)
        ensures
            final(self).bytes() == old(self).bytes(),
            ({
                let b = old(self).bytes();
                let p = old(self).pos();
                if p >= b.len() {
                    r == Err::<(), ReadError>(ReadError::OutOfRange) && final(self).pos() == p
                } else if b[p] == expect_byte {
                    r is Ok && final(self).pos() == p + 1
                } else {
                    r == Err::<(), ReadError>(
                        ReadError::UnexpectedByte {
                            position: p as usize,
                            expected: expect_byte,
                            actual: b[p],
                        },
                    ) && final(self).pos() == p + 1
                }
            }),
    {
        let ghost p = self.pos();
        let actual = match self.read_u8() {
            Ok(v) => v,
            Err(e) => {
                return Err(e);
            },
        };
        if actual != expect_byte {
            return Err(
                ReadError::UnexpectedByte {
                    position: self.position - 1,
                    expected: expect_byte,
                    actual,
                },
            );
        }
        Ok(())
    }

    /// Reads one byte when the condition holds, else two little-endian
    /// bytes, as a length-sized value.
    pub fn read_u16_unless_then_u8(&mut self, condition: bool) -> (r: Result<usize, ReadError>)
        ensures
            final(self).bytes() == old(self).bytes(),
            ({
                let b = old(self).bytes();
                let p = old(self).pos();
                if condition {
                    if p < b.len() {
                        r == Ok::<usize, ReadError>(b[p] as usize) && final(self).pos() == p + 1
                    } else {
                        r == Err::<usize, ReadError>(ReadError::OutOfRange) && final(self).pos()
                            == p
                    }
                } else {
                    if p + 2 <= b.len() {
                        r == Ok::<usize, ReadError>(le16(b[p], b[p + 1]) as usize) && final(self).pos() == p + 2
                    } else {
                        r == Err::<usize, ReadError>(ReadError::OutOfRange) && final(self).pos()
                            == p
                    }
                }
            }),
    {
        if condition {
            match self.read_u8() {
                Ok(v) => Ok(v as usize),
                Err(e) => Err(e),
            }
        } else {
            match self.read_u16() {
                Ok(v) => Ok(v as usize),
                Err(e) => Err(e),
            }
        }
    }
}

} // verus!
