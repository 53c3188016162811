//! The reader half of the binary codec: a cursor over an in-memory
//! byte stream, mirroring the writer's encoding byte for byte.
//!
//! Every read either succeeds, consuming exactly the bytes of one
//! encoded value, or fails leaving the cursor where it was: with
//! `TransportError` when the stream ends before the value is complete
//! (a short read), or with a `ProtocolError` when the bytes violate
//! the encoding (a tag byte outside the enumeration, a negative count).

use vstd::prelude::*;

use crate::codec::{dec_i16, dec_i32, dec_i64, dec_u64, enc_binary};
use crate::tag::{kind_of_byte, tag_of_byte, MessageKind, Tag};
use crate::{Error, ProtocolError};

verus! {

/// Whether a well-formed binary blob (length prefix and payload) starts
/// at `pos`: the prefix fits, is non-negative, and the payload fits.
pub open spec fn bin_ok(data: Seq<u8>, pos: int) -> bool {
    &&& pos + 4 <= data.len()
    &&& dec_i32(data.subrange(pos, pos + 4)) >= 0
    &&& pos + 4 + dec_i32(data.subrange(pos, pos + 4)) <= data.len()
}

/// The payload of the binary blob starting at `pos`.
pub open spec fn bin_payload(data: Seq<u8>, pos: int) -> Seq<u8> {
    data.subrange(pos + 4, pos + 4 + dec_i32(data.subrange(pos, pos + 4)))
}

/// The position just past the binary blob starting at `pos`.
pub open spec fn bin_end(data: Seq<u8>, pos: int) -> int {
    pos + 4 + dec_i32(data.subrange(pos, pos + 4))
}

/// Decoding an encoded binary blob undoes encoding it: the length
/// prefix is accepted, the payload read back is the same bytes,
/// and exactly the encoding's bytes are consumed.
pub proof fn lemma_binary_round_trip(s: Seq<u8>)
    requires
        s.len() <= i32::MAX,
    ensures
        bin_ok(enc_binary(s), 0),
        bin_payload(enc_binary(s), 0) == s,
        bin_end(enc_binary(s), 0) == enc_binary(s).len(),
{
    let e = enc_binary(s);
    let n = s.len() as i32;
    assert(e.subrange(0, 4) =~= crate::codec::enc_i32(n));
    crate::codec::lemma_i32_round_trip(n);
    assert(bin_payload(e, 0) =~= s);
}

/// The reader half of the binary codec: a byte buffer and a cursor.
pub struct BinReader {
    /// The bytes of the stream.
    pub buf: Vec<u8>,
    /// The cursor: how many bytes have been consumed.
    pub pos: usize,
}

impl BinReader {
    /// The bytes of the stream.
    pub open spec fn data(&self) -> Seq<u8> {
        self.buf@
    }

    /// The cursor position.
    pub open spec fn at(&self) -> int {
        self.pos as int
    }

    /// Well-formed: the cursor lies within the stream.
    pub open spec fn wf(&self) -> bool {
        self.pos <= self.buf@.len()
    }

    /// A reader over the given bytes, cursor at the start.
    pub fn new(buf: Vec<u8>) -> (r: BinReader)
        ensures
            r.data() == buf@,
            r.at() == 0,
            r.wf(),
    {
        BinReader { buf, pos: 0 }
    }

    /// How many bytes remain unconsumed.
    pub fn remaining(&self) -> (n: usize)
        requires
            self.wf(),
        ensures
            n == self.data().len() - self.at(),
    {
        self.buf.len() - self.pos
    }

    /// Read one raw byte.
    pub fn read_byte(&mut self) -> (r: Result<u8, Error>)
        requires
            old(self).wf(),
        ensures
            final(self).wf(),
            final(self).data() == old(self).data(),
            r is Ok <==> old(self).at() + 1 <= old(self).data().len(),
            r matches Ok(v) ==> final(self).at() == old(self).at() + 1 && v == old(self).data()[old(
                self,
            ).at()],
            r matches Err(e) ==> *final(self) == *old(self) && e == Error::TransportError,
    {
        if self.buf.len() - self.pos < 1 {
            return Err(Error::TransportError);
        }
        let v = self.buf[self.pos];
        self.pos = self.pos + 1;
        Ok(v)
    }

    /// Read a `bool`: one byte, nonzero decoding to `true`.
    pub fn read_bool(&mut self) -> (r: Result<bool, Error>)
        requires
            old(self).wf(),
        ensures
            final(self).wf(),
            final(self).data() == old(self).data(),
            r is Ok <==> old(self).at() + 1 <= old(self).data().len(),
            r matches Ok(v) ==> final(self).at() == old(self).at() + 1 && v == (old(self).data()[
                old(self).at()
            ] != 0),
            r matches Err(e) ==> *final(self) == *old(self) && e == Error::TransportError,
    {
        let b = self.read_byte()?;
        Ok(b != 0)
    }

    /// Read an `i16` from two big-endian bytes.
    pub fn read_i16(&mut self) -> (r: Result<i16, Error>)
        requires
            old(self).wf(),
        ensures
            final(self).wf(),
            final(self).data() == old(self).data(),
            r is Ok <==> old(self).at() + 2 <= old(self).data().len(),
            r matches Ok(v) ==> final(self).at() == old(self).at() + 2 && v == dec_i16(
                old(self).data().subrange(old(self).at(), old(self).at() + 2),
            ),
            r matches Err(e) ==> *final(self) == *old(self) && e == Error::TransportError,
    {
        if self.buf.len() - self.pos < 2 {
            return Err(Error::TransportError);
        }
        let b0 = self.buf[self.pos];
        let b1 = self.buf[self.pos + 1];
        let u = ((b0 as u16) << 8) | (b1 as u16);
        self.pos = self.pos + 2;
        proof {
            let s = old(self).data().subrange(old(self).at(), old(self).at() + 2);
            assert(s[0] == b0 && s[1] == b1);
        }
        Ok(u as i16)
    }

    /// Read an `i32` from four big-endian bytes.
    pub fn read_i32(&mut self) -> (r: Result<i32, Error>)
        requires
            old(self).wf(),
        ensures
            final(self).wf(),
            final(self).data() == old(self).data(),
            r is Ok <==> old(self).at() + 4 <= old(self).data().len(),
            r matches Ok(v) ==> final(self).at() == old(self).at() + 4 && v == dec_i32(
                old(self).data().subrange(old(self).at(), old(self).at() + 4),
            ),
            r matches Err(e) ==> *final(self) == *old(self) && e == Error::TransportError,
    {
        if self.buf.len() - self.pos < 4 {
            return Err(Error::TransportError);
        }
        let b0 = self.buf[self.pos];
        let b1 = self.buf[self.pos + 1];
        let b2 = self.buf[self.pos + 2];
        let b3 = self.buf[self.pos + 3];
        let u = ((b0 as u32) << 24) | ((b1 as u32) << 16) | ((b2 as u32) << 8) | (b3 as u32);
        self.pos = self.pos + 4;
        proof {
            let s = old(self).data().subrange(old(self).at(), old(self).at() + 4);
            assert(s[0] == b0 && s[1] == b1 && s[2] == b2 && s[3] == b3);
        }
        Ok(u as i32)
    }

    /// Read an `i64` from eight big-endian bytes.
    pub fn read_i64(&mut self) -> (r: Result<i64, Error>)
        requires
            old(self).wf(),
        ensures
            final(self).wf(),
            final(self).data() == old(self).data(),
            r is Ok <==> old(self).at() + 8 <= old(self).data().len(),
            r matches Ok(v) ==> final(self).at() == old(self).at() + 8 && v == dec_i64(
                old(self).data().subrange(old(self).at(), old(self).at() + 8),
            ),
            r matches Err(e) ==> *final(self) == *old(self) && e == Error::TransportError,
    {
        let u = self.read_u64_be()?;
        Ok(u as i64)
    }

    /// Read a double as the eight big-endian bytes of its IEEE-754 bit
    /// pattern; the caller turns the bits into a floating-point value.
    pub fn read_double_bits(&mut self) -> (r: Result<u64, Error>)
        requires
            old(self).wf(),
        ensures
            final(self).wf(),
            final(self).data() == old(self).data(),
            r is Ok <==> old(self).at() + 8 <= old(self).data().len(),
            r matches Ok(v) ==> final(self).at() == old(self).at() + 8 && v == dec_u64(
                old(self).data().subrange(old(self).at(), old(self).at() + 8),
            ),
            r matches Err(e) ==> *final(self) == *old(self) && e == Error::TransportError,
    {
        self.read_u64_be()
    }

    /// Read a `u64` from eight big-endian bytes.
    fn read_u64_be(&mut self) -> (r: Result<u64, Error>)
        requires
            old(self).wf(),
        ensures
            final(self).wf(),
            final(self).data() == old(self).data(),
            r is Ok <==> old(self).at() + 8 <= old(self).data().len(),
            r matches Ok(v) ==> final(self).at() == old(self).at() + 8 && v == dec_u64(
                old(self).data().subrange(old(self).at(), old(self).at() + 8),
            ),
            r matches Err(e) ==> *final(self) == *old(self) && e == Error::TransportError,
    {
        if self.buf.len() - self.pos < 8 {
            return Err(Error::TransportError);
        }
        let b0 = self.buf[self.pos];
        let b1 = self.buf[self.pos + 1];
        let b2 = self.buf[self.pos + 2];
        let b3 = self.buf[self.pos + 3];
        let b4 = self.buf[self.pos + 4];
        let b5 = self.buf[self.pos + 5];
        let b6 = self.buf[self.pos + 6];
        let b7 = self.buf[self.pos + 7];
        let u = ((b0 as u64) << 56) | ((b1 as u64) << 48) | ((b2 as u64) << 40) | ((b3 as u64)
            << 32) | ((b4 as u64) << 24) | ((b5 as u64) << 16) | ((b6 as u64) << 8) | (b7 as u64);
        self.pos = self.pos + 8;
        proof {
            let s = old(self).data().subrange(old(self).at(), old(self).at() + 8);
            assert(s[0] == b0 && s[1] == b1 && s[2] == b2 && s[3] == b3);
            assert(s[4] == b4 && s[5] == b5 && s[6] == b6 && s[7] == b7);
        }
        Ok(u)
    }

    /// Read a binary blob: `i32` length prefix, then that many raw bytes.
    /// The consumed bytes are exactly `enc_binary` of the returned blob.
    pub fn read_binary(&mut self) -> (r: Result<Vec<u8>, Error>)
        requires
            old(self).wf(),
        ensures
            final(self).wf(),
            final(self).data() == old(self).data(),
            r is Ok <==> bin_ok(old(self).data(), old(self).at()),
            r matches Ok(v) ==> {
                &&& final(self).at() == bin_end(old(self).data(), old(self).at())
                &&& v@ == bin_payload(old(self).data(), old(self).at())
                &&& old(self).data().subrange(old(self).at(), final(self).at()) == enc_binary(v@)
            },
            r matches Err(e) ==> *final(self) == *old(self) && e == (
            if old(self).at() + 4 > old(self).data().len() {
                Error::TransportError
            } else if dec_i32(old(self).data().subrange(old(self).at(), old(self).at() + 4)) < 0 {
                Error::ProtocolError(ProtocolError::NegativeCount)
            } else {
                Error::TransportError
            }),
    {
        let ghost data = old(self).data();
        let ghost start = old(self).at();
        if self.buf.len() - self.pos < 4 {
            return Err(Error::TransportError);
        }
        let b0 = self.buf[self.pos];
        let b1 = self.buf[self.pos + 1];
        let b2 = self.buf[self.pos + 2];
        let b3 = self.buf[self.pos + 3];
        let u = ((b0 as u32) << 24) | ((b1 as u32) << 16) | ((b2 as u32) << 8) | (b3 as u32);
        let n = u as i32;
        proof {
            let s = data.subrange(start, start + 4);
            assert(s[0] == b0 && s[1] == b1 && s[2] == b2 && s[3] == b3);
            assert(n == dec_i32(s));
        }
        if n < 0 {
            return Err(Error::ProtocolError(ProtocolError::NegativeCount));
        }
        let len = n as usize;
        if self.buf.len() - (self.pos + 4) < len {
            return Err(Error::TransportError);
        }
        let body_start = self.pos + 4;
        let body_end = body_start + len;
        let mut v: Vec<u8> = Vec::new();
        let mut j: usize = body_start;
        while j < body_end
            invariant
                body_start <= j <= body_end,
                body_end <= self.buf@.len(),
                self == old(self),
                v@ == self.buf@.subrange(body_start as int, j as int),
            decreases body_end - j,
        {
            let b = self.buf[j];
            v.push(b);
            j = j + 1;
            proof {
                assert(v@ =~= self.buf@.subrange(body_start as int, j as int));
            }
        }
        self.pos = body_end;
        proof {
            assert(v@ =~= bin_payload(data, start));
            let consumed = data.subrange(start, bin_end(data, start));
            assert(consumed =~= enc_binary(v@)) by {
                let prefix = data.subrange(start, start + 4);
                crate::codec::lemma_i32_enc_of_dec(b0, b1, b2, b3);
                assert(prefix =~= seq![b0, b1, b2, b3]);
                assert(v@.len() == n);
                assert(crate::codec::enc_i32(n) == prefix);
            }
        }
        Ok(v)
    }

    /// Read a field header: one tag byte, then an `i16` field id; a
    /// `Stop` byte stands alone and yields id 0.
    pub fn read_field_begin(&mut self) -> (r: Result<(Tag, i16), Error>)
        requires
            old(self).wf(),
        ensures
            final(self).wf(),
            final(self).data() == old(self).data(),
            r is Ok <==> {
                &&& old(self).at() + 1 <= old(self).data().len()
                &&& tag_of_byte(old(self).data()[old(self).at()]) is Some
                &&& (tag_of_byte(old(self).data()[old(self).at()]) != Some(Tag::Stop) ==> old(
                    self,
                ).at() + 3 <= old(self).data().len())
            },
            r matches Ok((t, id)) ==> {
                &&& Some(t) == tag_of_byte(old(self).data()[old(self).at()])
                &&& (t == Tag::Stop ==> final(self).at() == old(self).at() + 1 && id == 0)
                &&& (t != Tag::Stop ==> final(self).at() == old(self).at() + 3 && id == dec_i16(
                    old(self).data().subrange(old(self).at() + 1, old(self).at() + 3),
                ))
            },
            r matches Err(e) ==> *final(self) == *old(self) && e == (
            if old(self).at() + 1 > old(self).data().len() {
                Error::TransportError
            } else if tag_of_byte(old(self).data()[old(self).at()]) is None {
                Error::ProtocolError(ProtocolError::UnknownTypeTag)
            } else {
                Error::TransportError
            }),
    {
        if self.buf.len() - self.pos < 1 {
            return Err(Error::TransportError);
        }
        let b = self.buf[self.pos];
        let t = match crate::tag::byte_to_tag(b) {
            Some(t) => t,
            None => {
                return Err(Error::ProtocolError(ProtocolError::UnknownTypeTag));
            },
        };
        if let Tag::Stop = t {
            self.pos = self.pos + 1;
            return Ok((Tag::Stop, 0));
        }
        if self.buf.len() - self.pos < 3 {
            return Err(Error::TransportError);
        }
        let b0 = self.buf[self.pos + 1];
        let b1 = self.buf[self.pos + 2];
        let u = ((b0 as u16) << 8) | (b1 as u16);
        proof {
            let s = old(self).data().subrange(old(self).at() + 1, old(self).at() + 3);
            assert(s[0] == b0 && s[1] == b1);
        }
        self.pos = self.pos + 3;
        Ok((t, u as i16))
    }

    /// End a field. Consumes no bytes; kept for the symmetric contract
    /// shape.
    pub fn read_field_end(&mut self) -> (r: Result<(), Error>)
        requires
            old(self).wf(),
        ensures
            *final(self) == *old(self),
            r is Ok,
    {
        Ok(())
    }

    /// Begin a struct. Consumes no bytes: struct names are not
    /// serialized in this encoding family.
    pub fn read_struct_begin(&mut self) -> (r: Result<(), Error>)
        requires
            old(self).wf(),
        ensures
            *final(self) == *old(self),
            r is Ok,
    {
        Ok(())
    }

    /// End a struct. Consumes no bytes.
    pub fn read_struct_end(&mut self) -> (r: Result<(), Error>)
        requires
            old(self).wf(),
        ensures
            *final(self) == *old(self),
            r is Ok,
    {
        Ok(())
    }

    /// Read a list header: one element-tag byte, then an `i32` count,
    /// which must be non-negative.
    pub fn read_list_begin(&mut self) -> (r: Result<(Tag, i32), Error>)
        requires
            old(self).wf(),
        ensures
            final(self).wf(),
            final(self).data() == old(self).data(),
            r is Ok <==> {
                &&& old(self).at() + 5 <= old(self).data().len()
                &&& tag_of_byte(old(self).data()[old(self).at()]) is Some
                &&& dec_i32(old(self).data().subrange(old(self).at() + 1, old(self).at() + 5)) >= 0
            },
            r matches Ok((elem, count)) ==> {
                &&& final(self).at() == old(self).at() + 5
                &&& Some(elem) == tag_of_byte(old(self).data()[old(self).at()])
                &&& count == dec_i32(
                    old(self).data().subrange(old(self).at() + 1, old(self).at() + 5),
                )
                &&& count >= 0
            },
            r matches Err(e) ==> *final(self) == *old(self) && e == (
            if old(self).at() + 1 > old(self).data().len() {
                Error::TransportError
            } else if tag_of_byte(old(self).data()[old(self).at()]) is None {
                Error::ProtocolError(ProtocolError::UnknownTypeTag)
            } else if old(self).at() + 5 > old(self).data().len() {
                Error::TransportError
            } else {
                Error::ProtocolError(ProtocolError::NegativeCount)
            }),
    {
        if self.buf.len() - self.pos < 1 {
            return Err(Error::TransportError);
        }
        let b = self.buf[self.pos];
        let elem = match crate::tag::byte_to_tag(b) {
            Some(t) => t,
            None => {
                return Err(Error::ProtocolError(ProtocolError::UnknownTypeTag));
            },
        };
        if self.buf.len() - self.pos < 5 {
            return Err(Error::TransportError);
        }
        let b0 = self.buf[self.pos + 1];
        let b1 = self.buf[self.pos + 2];
        let b2 = self.buf[self.pos + 3];
        let b3 = self.buf[self.pos + 4];
        let u = ((b0 as u32) << 24) | ((b1 as u32) << 16) | ((b2 as u32) << 8) | (b3 as u32);
        let count = u as i32;
        proof {
            let s = old(self).data().subrange(old(self).at() + 1, old(self).at() + 5);
            assert(s[0] == b0 && s[1] == b1 && s[2] == b2 && s[3] == b3);
        }
        if count < 0 {
            return Err(Error::ProtocolError(ProtocolError::NegativeCount));
        }
        self.pos = self.pos + 5;
        Ok((elem, count))
    }

    /// End a list. Consumes no bytes.
    pub fn read_list_end(&mut self) -> (r: Result<(), Error>)
        requires
            old(self).wf(),
        ensures
            *final(self) == *old(self),
            r is Ok,
    {
        Ok(())
    }

    /// Read a set header; identical on the wire to a list header.
    pub fn read_set_begin(&mut self) -> (r: Result<(Tag, i32), Error>)
        requires
            old(self).wf(),
        ensures
            final(self).wf(),
            final(self).data() == old(self).data(),
            r is Ok <==> {
                &&& old(self).at() + 5 <= old(self).data().len()
                &&& tag_of_byte(old(self).data()[old(self).at()]) is Some
                &&& dec_i32(old(self).data().subrange(old(self).at() + 1, old(self).at() + 5)) >= 0
            },
            r matches Ok((elem, count)) ==> {
                &&& final(self).at() == old(self).at() + 5
                &&& Some(elem) == tag_of_byte(old(self).data()[old(self).at()])
                &&& count == dec_i32(
                    old(self).data().subrange(old(self).at() + 1, old(self).at() + 5),
                )
                &&& count >= 0
            },
            r matches Err(_) ==> *final(self) == *old(self),
    {
        self.read_list_begin()
    }

    /// End a set. Consumes no bytes.
    pub fn read_set_end(&mut self) -> (r: Result<(), Error>)
        requires
            old(self).wf(),
        ensures
            *final(self) == *old(self),
            r is Ok,
    {
        Ok(())
    }

    /// Read a map header: key-tag byte, value-tag byte, then an `i32`
    /// count, which must be non-negative.
    pub fn read_map_begin(&mut self) -> (r: Result<(Tag, Tag, i32), Error>)
        requires
            old(self).wf(),
        ensures
            final(self).wf(),
            final(self).data() == old(self).data(),
            r is Ok <==> {
                &&& old(self).at() + 6 <= old(self).data().len()
                &&& tag_of_byte(old(self).data()[old(self).at()]) is Some
                &&& tag_of_byte(old(self).data()[old(self).at() + 1]) is Some
                &&& dec_i32(old(self).data().subrange(old(self).at() + 2, old(self).at() + 6)) >= 0
            },
            r matches Ok((key, value, count)) ==> {
                &&& final(self).at() == old(self).at() + 6
                &&& Some(key) == tag_of_byte(old(self).data()[old(self).at()])
                &&& Some(value) == tag_of_byte(old(self).data()[old(self).at() + 1])
                &&& count == dec_i32(
                    old(self).data().subrange(old(self).at() + 2, old(self).at() + 6),
                )
                &&& count >= 0
            },
            r matches Err(e) ==> *final(self) == *old(self) && (e == Error::TransportError || e
                == Error::ProtocolError(ProtocolError::UnknownTypeTag) || e == Error::ProtocolError(
                ProtocolError::NegativeCount,
            )),
    {
        if self.buf.len() - self.pos < 2 {
            return Err(Error::TransportError);
        }
        let kb = self.buf[self.pos];
        let key = match crate::tag::byte_to_tag(kb) {
            Some(t) => t,
            None => {
                return Err(Error::ProtocolError(ProtocolError::UnknownTypeTag));
            },
        };
        let vb = self.buf[self.pos + 1];
        let value = match crate::tag::byte_to_tag(vb) {
            Some(t) => t,
            None => {
                return Err(Error::ProtocolError(ProtocolError::UnknownTypeTag));
            },
        };
        if self.buf.len() - self.pos < 6 {
            return Err(Error::TransportError);
        }
        let b0 = self.buf[self.pos + 2];
        let b1 = self.buf[self.pos + 3];
        let b2 = self.buf[self.pos + 4];
        let b3 = self.buf[self.pos + 5];
        let u = ((b0 as u32) << 24) | ((b1 as u32) << 16) | ((b2 as u32) << 8) | (b3 as u32);
        let count = u as i32;
        proof {
            let s = old(self).data().subrange(old(self).at() + 2, old(self).at() + 6);
            assert(s[0] == b0 && s[1] == b1 && s[2] == b2 && s[3] == b3);
        }
        if count < 0 {
            return Err(Error::ProtocolError(ProtocolError::NegativeCount));
        }
        self.pos = self.pos + 6;
        Ok((key, value, count))
    }

    /// End a map. Consumes no bytes.
    pub fn read_map_end(&mut self) -> (r: Result<(), Error>)
        requires
            old(self).wf(),
        ensures
            *final(self) == *old(self),
            r is Ok,
    {
        Ok(())
    }

    /// Read a message envelope: the method name as a length-prefixed
    /// binary, one kind byte, then the `i32` sequence id. The consumed
    /// bytes are exactly `enc_message_begin` of what is returned.
    pub fn read_message_begin(&mut self) -> (r: Result<(Vec<u8>, MessageKind, i32), Error>)
        requires
            old(self).wf(),
        ensures
            final(self).wf(),
            final(self).data() == old(self).data(),
            r is Ok <==> {
                &&& bin_ok(old(self).data(), old(self).at())
                &&& bin_end(old(self).data(), old(self).at()) + 5 <= old(self).data().len()
                &&& kind_of_byte(old(self).data()[bin_end(old(self).data(), old(self).at())])
                    is Some
            },
            r matches Ok((name, kind, seq_id)) ==> {
                &&& name@ == bin_payload(old(self).data(), old(self).at())
                &&& Some(kind) == kind_of_byte(
                    old(self).data()[bin_end(old(self).data(), old(self).at())],
                )
                &&& seq_id == dec_i32(
                    old(self).data().subrange(
                        bin_end(old(self).data(), old(self).at()) + 1,
                        bin_end(old(self).data(), old(self).at()) + 5,
                    ),
                )
                &&& final(self).at() == bin_end(old(self).data(), old(self).at()) + 5
                &&& old(self).data().subrange(old(self).at(), final(self).at())
                    == crate::codec::enc_message_begin(name@, kind, seq_id)
            },
            r matches Err(e) ==> final(self).at() == old(self).at() && (e == Error::TransportError
                || e == Error::ProtocolError(ProtocolError::NegativeCount) || e
                == Error::ProtocolError(ProtocolError::UnknownMessageKind)),
    {
        let ghost data = old(self).data();
        let ghost start = old(self).at();
        let saved_pos = self.pos;
        let name = self.read_binary()?;
        let kb = match self.read_byte() {
            Ok(b) => b,
            Err(e) => {
                self.pos = saved_pos;
                return Err(e);
            },
        };
        let kind = match crate::tag::byte_to_kind(kb) {
            Some(k) => k,
            None => {
                self.pos = saved_pos;
                return Err(Error::ProtocolError(ProtocolError::UnknownMessageKind));
            },
        };
        let seq_id = match self.read_i32() {
            Ok(v) => v,
            Err(e) => {
                self.pos = saved_pos;
                return Err(e);
            },
        };
        proof {
            let bend = bin_end(data, start);
            let end = bend + 5;
            let consumed = data.subrange(start, end);
            let expect = crate::codec::enc_message_begin(name@, kind, seq_id);
            assert(consumed =~= expect) by {
                assert(data.subrange(start, bend) == enc_binary(name@));
                let tail = data.subrange(bend + 1, end);
                assert(tail =~= seq![data[bend + 1], data[bend + 2], data[bend + 3], data[bend + 4]]);
                crate::codec::lemma_i32_enc_of_dec(
                    data[bend + 1],
                    data[bend + 2],
                    data[bend + 3],
                    data[bend + 4],
                );
                assert(crate::codec::enc_i32(seq_id) == tail);
            }
        }
        Ok((name, kind, seq_id))
    }

    /// End a message. Consumes no bytes.
    pub fn read_message_end(&mut self) -> (r: Result<(), Error>)
        requires
            old(self).wf(),
        ensures
            *final(self) == *old(self),
            r is Ok,
    {
        Ok(())
    }
}

} // verus!
