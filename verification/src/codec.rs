//! The binary wire encoding and the writer half of the codec.
//!
//! Encoding rules: fixed-width big-endian integers (`i16` = 2 bytes,
//! `i32` = 4, `i64` = 8, double = 8 bytes of its IEEE-754 bit pattern),
//! `bool` as one canonical 0/1 byte, binary blobs as an `i32` length
//! prefix followed by the raw bytes, field headers as one tag byte plus
//! an `i16` field id (a `Stop` header is the single byte 0), list/set
//! headers as one element-tag byte plus an `i32` count, map headers as
//! key-tag and value-tag bytes plus an `i32` count, and the message
//! envelope as a length-prefixed method name, one kind byte and an
//! `i32` sequence id. Struct begin/end, message end and the various
//! `*_end` markers emit no bytes.

use vstd::prelude::*;

use crate::tag::{kind_byte, tag_byte, MessageKind, Tag};

verus! {

/// The wire bytes of a `bool`: one canonical 0/1 byte.
pub open spec fn enc_bool(v: bool) -> Seq<u8> {
    seq![if v { 1u8 } else { 0u8 }]
}

/// The wire bytes of a raw byte.
pub open spec fn enc_byte(v: u8) -> Seq<u8> {
    seq![v]
}

/// The wire bytes of a `u16`, big-endian.
pub open spec fn enc_u16(v: u16) -> Seq<u8> {
    seq![(v >> 8) as u8, v as u8]
}

/// The wire bytes of an `i16`: its two's-complement pattern, big-endian.
pub open spec fn enc_i16(v: i16) -> Seq<u8> {
    enc_u16(v as u16)
}

/// The wire bytes of a `u32`, big-endian.
pub open spec fn enc_u32(v: u32) -> Seq<u8> {
    seq![(v >> 24) as u8, (v >> 16) as u8, (v >> 8) as u8, v as u8]
}

/// The wire bytes of an `i32`: its two's-complement pattern, big-endian.
pub open spec fn enc_i32(v: i32) -> Seq<u8> {
    enc_u32(v as u32)
}

/// The wire bytes of a `u64`, big-endian.
pub open spec fn enc_u64(v: u64) -> Seq<u8> {
    seq![
        (v >> 56) as u8,
        (v >> 48) as u8,
        (v >> 40) as u8,
        (v >> 32) as u8,
        (v >> 24) as u8,
        (v >> 16) as u8,
        (v >> 8) as u8,
        v as u8,
    ]
}

/// The wire bytes of an `i64`: its two's-complement pattern, big-endian.
pub open spec fn enc_i64(v: i64) -> Seq<u8> {
    enc_u64(v as u64)
}

/// The `u16` that two big-endian bytes decode to.
pub open spec fn dec_u16(s: Seq<u8>) -> u16 {
    (((s[0] as u16) << 8) | (s[1] as u16)) as u16
}

/// The `i16` that two big-endian bytes decode to.
pub open spec fn dec_i16(s: Seq<u8>) -> i16 {
    dec_u16(s) as i16
}

/// The `u32` that four big-endian bytes decode to.
pub open spec fn dec_u32(s: Seq<u8>) -> u32 {
    (((s[0] as u32) << 24) | ((s[1] as u32) << 16) | ((s[2] as u32) << 8) | (s[3] as u32)) as u32
}

/// The `i32` that four big-endian bytes decode to.
pub open spec fn dec_i32(s: Seq<u8>) -> i32 {
    dec_u32(s) as i32
}

/// The `u64` that eight big-endian bytes decode to.
pub open spec fn dec_u64(s: Seq<u8>) -> u64 {
    (((s[0] as u64) << 56) | ((s[1] as u64) << 48) | ((s[2] as u64) << 40) | ((s[3] as u64) << 32)
        | ((s[4] as u64) << 24) | ((s[5] as u64) << 16) | ((s[6] as u64) << 8) | (
    s[7] as u64)) as u64
}

/// The `i64` that eight big-endian bytes decode to.
pub open spec fn dec_i64(s: Seq<u8>) -> i64 {
    dec_u64(s) as i64
}

/// The wire bytes of a binary blob: `i32` length prefix, then the bytes.
pub open spec fn enc_binary(s: Seq<u8>) -> Seq<u8> {
    enc_i32(s.len() as i32) + s
}

/// The wire bytes of a field header: tag byte, then the `i16` field id.
/// Not used for `Stop`, whose header is the single byte 0.
pub open spec fn enc_field_header(t: Tag, id: i16) -> Seq<u8> {
    seq![tag_byte(t)] + enc_i16(id)
}

/// The wire bytes of a list or set header: element tag, then `i32` count.
pub open spec fn enc_list_header(elem: Tag, count: i32) -> Seq<u8> {
    seq![tag_byte(elem)] + enc_i32(count)
}

/// The wire bytes of a map header: key tag, value tag, then `i32` count.
pub open spec fn enc_map_header(key: Tag, value: Tag, count: i32) -> Seq<u8> {
    seq![tag_byte(key), tag_byte(value)] + enc_i32(count)
}

/// The wire bytes of a message envelope: length-prefixed method name,
/// one kind byte, `i32` sequence id.
pub open spec fn enc_message_begin(name: Seq<u8>, kind: MessageKind, seq_id: i32) -> Seq<u8> {
    enc_binary(name) + seq![kind_byte(kind)] + enc_i32(seq_id)
}

/// Decoding two big-endian bytes undoes encoding a `u16`.
pub proof fn lemma_u16_round_trip(v: u16)
    ensures
        dec_u16(enc_u16(v)) == v,
{
    assert(((((v >> 8) as u8) as u16) << 8 | ((v as u8) as u16)) as u16 == v) by (bit_vector);
}

/// Decoding two big-endian bytes undoes encoding an `i16`.
pub proof fn lemma_i16_round_trip(v: i16)
    ensures
        dec_i16(enc_i16(v)) == v,
{
    lemma_u16_round_trip(v as u16);
    assert(((v as u16) as i16) == v) by (bit_vector);
}

/// Decoding four big-endian bytes undoes encoding a `u32`.
pub proof fn lemma_u32_round_trip(v: u32)
    ensures
        dec_u32(enc_u32(v)) == v,
{
    assert(((((v >> 24) as u8) as u32) << 24 | (((v >> 16) as u8) as u32) << 16 | (((v
        >> 8) as u8) as u32) << 8 | ((v as u8) as u32)) as u32 == v) by (bit_vector);
}

/// Decoding four big-endian bytes undoes encoding an `i32`.
pub proof fn lemma_i32_round_trip(v: i32)
    ensures
        dec_i32(enc_i32(v)) == v,
{
    lemma_u32_round_trip(v as u32);
    assert(((v as u32) as i32) == v) by (bit_vector);
}

/// Decoding eight big-endian bytes undoes encoding a `u64`.
pub proof fn lemma_u64_round_trip(v: u64)
    ensures
        dec_u64(enc_u64(v)) == v,
{
    assert(((((v >> 56) as u8) as u64) << 56 | (((v >> 48) as u8) as u64) << 48 | (((v
        >> 40) as u8) as u64) << 40 | (((v >> 32) as u8) as u64) << 32 | (((v >> 24) as u8) as u64)
        << 24 | (((v >> 16) as u8) as u64) << 16 | (((v >> 8) as u8) as u64) << 8 | ((
    v as u8) as u64)) as u64 == v) by (bit_vector);
}

/// Decoding eight big-endian bytes undoes encoding an `i64`.
pub proof fn lemma_i64_round_trip(v: i64)
    ensures
        dec_i64(enc_i64(v)) == v,
{
    lemma_u64_round_trip(v as u64);
    assert(((v as u64) as i64) == v) by (bit_vector);
}

/// Reading back the canonical byte of a `bool` undoes encoding it.
pub proof fn lemma_bool_round_trip(v: bool)
    ensures
        (enc_bool(v)[0] != 0) == v,
{
}

/// Casting a `u16` to `i16` and back is the identity on the bits.
pub proof fn lemma_u16_cast_round(v: u16)
    ensures
        ((v as i16) as u16) == v,
{
    assert(((v as i16) as u16) == v) by (bit_vector);
}

/// Casting a `u32` to `i32` and back is the identity on the bits.
pub proof fn lemma_u32_cast_round(v: u32)
    ensures
        ((v as i32) as u32) == v,
{
    assert(((v as i32) as u32) == v) by (bit_vector);
}

/// Casting a `u64` to `i64` and back is the identity on the bits.
pub proof fn lemma_u64_cast_round(v: u64)
    ensures
        ((v as i64) as u64) == v,
{
    assert(((v as i64) as u64) == v) by (bit_vector);
}

/// Encoding the `u16` that two bytes decode to gives back those bytes.
pub proof fn lemma_u16_enc_of_dec(b0: u8, b1: u8)
    ensures
        enc_u16(dec_u16(seq![b0, b1])) == seq![b0, b1],
{
    let s = seq![b0, b1];
    assert(s[0] == b0 && s[1] == b1);
    let u = (((b0 as u16) << 8) | (b1 as u16)) as u16;
    assert((u >> 8) as u8 == b0 && u as u8 == b1) by (bit_vector)
        requires
            u == (((b0 as u16) << 8) | (b1 as u16)) as u16,
    ;
    assert(enc_u16(dec_u16(s)) =~= s);
}

/// Encoding the `u32` that four bytes decode to gives back those bytes.
pub proof fn lemma_u32_enc_of_dec(b0: u8, b1: u8, b2: u8, b3: u8)
    ensures
        enc_u32(dec_u32(seq![b0, b1, b2, b3])) == seq![b0, b1, b2, b3],
{
    let s = seq![b0, b1, b2, b3];
    assert(s[0] == b0 && s[1] == b1 && s[2] == b2 && s[3] == b3);
    let u = (((b0 as u32) << 24) | ((b1 as u32) << 16) | ((b2 as u32) << 8) | (b3 as u32)) as u32;
    assert((u >> 24) as u8 == b0 && (u >> 16) as u8 == b1 && (u >> 8) as u8 == b2 && u as u8 == b3)
        by (bit_vector)
        requires
            u == (((b0 as u32) << 24) | ((b1 as u32) << 16) | ((b2 as u32) << 8) | (
            b3 as u32)) as u32,
    ;
    assert(enc_u32(dec_u32(s)) =~= s);
}

/// Encoding the `u64` that eight bytes decode to gives back those bytes.
pub proof fn lemma_u64_enc_of_dec(b0: u8, b1: u8, b2: u8, b3: u8, b4: u8, b5: u8, b6: u8, b7: u8)
    ensures
        enc_u64(dec_u64(seq![b0, b1, b2, b3, b4, b5, b6, b7])) == seq![
            b0,
            b1,
            b2,
            b3,
            b4,
            b5,
            b6,
            b7,
        ],
{
    let s = seq![b0, b1, b2, b3, b4, b5, b6, b7];
    assert(s[0] == b0 && s[1] == b1 && s[2] == b2 && s[3] == b3);
    assert(s[4] == b4 && s[5] == b5 && s[6] == b6 && s[7] == b7);
    let u = (((b0 as u64) << 56) | ((b1 as u64) << 48) | ((b2 as u64) << 40) | ((b3 as u64) << 32)
        | ((b4 as u64) << 24) | ((b5 as u64) << 16) | ((b6 as u64) << 8) | (b7 as u64)) as u64;
    assert((u >> 56) as u8 == b0 && (u >> 48) as u8 == b1 && (u >> 40) as u8 == b2 && (u
        >> 32) as u8 == b3 && (u >> 24) as u8 == b4 && (u >> 16) as u8 == b5 && (u >> 8) as u8 == b6
        && u as u8 == b7) by (bit_vector)
        requires
            u == (((b0 as u64) << 56) | ((b1 as u64) << 48) | ((b2 as u64) << 40) | ((b3 as u64)
                << 32) | ((b4 as u64) << 24) | ((b5 as u64) << 16) | ((b6 as u64) << 8) | (
            b7 as u64)) as u64,
    ;
    assert(enc_u64(dec_u64(s)) =~= s);
}

/// Encoding the `i32` that four bytes decode to gives back those bytes.
pub proof fn lemma_i32_enc_of_dec(b0: u8, b1: u8, b2: u8, b3: u8)
    ensures
        enc_i32(dec_i32(seq![b0, b1, b2, b3])) == seq![b0, b1, b2, b3],
{
    lemma_u32_enc_of_dec(b0, b1, b2, b3);
    lemma_u32_cast_round(dec_u32(seq![b0, b1, b2, b3]));
}

/// Encoding the `i16` that two bytes decode to gives back those bytes.
pub proof fn lemma_i16_enc_of_dec(b0: u8, b1: u8)
    ensures
        enc_i16(dec_i16(seq![b0, b1])) == seq![b0, b1],
{
    lemma_u16_enc_of_dec(b0, b1);
    lemma_u16_cast_round(dec_u16(seq![b0, b1]));
}

/// Encoding the `i64` that eight bytes decode to gives back those bytes.
pub proof fn lemma_i64_enc_of_dec(b0: u8, b1: u8, b2: u8, b3: u8, b4: u8, b5: u8, b6: u8, b7: u8)
    ensures
        enc_i64(dec_i64(seq![b0, b1, b2, b3, b4, b5, b6, b7])) == seq![
            b0,
            b1,
            b2,
            b3,
            b4,
            b5,
            b6,
            b7,
        ],
{
    lemma_u64_enc_of_dec(b0, b1, b2, b3, b4, b5, b6, b7);
    lemma_u64_cast_round(dec_u64(seq![b0, b1, b2, b3, b4, b5, b6, b7]));
}

/// The writer half of the binary codec: appends the wire bytes of each
/// value to an in-memory stream. Its view is the byte sequence written
/// so far.
pub struct BinWriter {
    /// The bytes written so far, oldest first.
    pub out: Vec<u8>,
}

impl View for BinWriter {
    type V = Seq<u8>;

    open spec fn view(&self) -> Seq<u8> {
        self.out@
    }
}

impl BinWriter {
    /// A writer with nothing written yet.
    pub fn new() -> (w: BinWriter)
        ensures
            w@ == Seq::<u8>::empty(),
    {
        let w = BinWriter { out: Vec::new() };
        proof {
            assert(w@ =~= Seq::<u8>::empty());
        }
        w
    }

    /// Hand the written bytes to the caller, consuming the writer.
    pub fn into_bytes(self) -> (r: Vec<u8>)
        ensures
            r@ == self@,
    {
        self.out
    }

    /// Write one raw byte.
    pub fn write_byte(&mut self, v: u8)
        ensures
            final(self)@ == old(self)@ + enc_byte(v),
    {
        self.out.push(v);
        proof {
            assert(self@ =~= old(self)@ + enc_byte(v));
        }
    }

    /// Write a `bool` as one canonical 0/1 byte.
    pub fn write_bool(&mut self, v: bool)
        ensures
            final(self)@ == old(self)@ + enc_bool(v),
    {
        self.out.push(if v { 1 } else { 0 });
        proof {
            assert(self@ =~= old(self)@ + enc_bool(v));
        }
    }

    /// Write an `i16`, big-endian.
    pub fn write_i16(&mut self, v: i16)
        ensures
            final(self)@ == old(self)@ + enc_i16(v),
    {
        let u = v as u16;
        self.out.push((u >> 8) as u8);
        self.out.push(u as u8);
        proof {
            assert(self@ =~= old(self)@ + enc_i16(v));
        }
    }

    /// Write an `i32`, big-endian.
    pub fn write_i32(&mut self, v: i32)
        ensures
            final(self)@ == old(self)@ + enc_i32(v),
    {
        let u = v as u32;
        self.out.push((u >> 24) as u8);
        self.out.push((u >> 16) as u8);
        self.out.push((u >> 8) as u8);
        self.out.push(u as u8);
        proof {
            assert(self@ =~= old(self)@ + enc_i32(v));
        }
    }

    /// Write an `i64`, big-endian.
    pub fn write_i64(&mut self, v: i64)
        ensures
            final(self)@ == old(self)@ + enc_i64(v),
    {
        let u = v as u64;
        self.out.push((u >> 56) as u8);
        self.out.push((u >> 48) as u8);
        self.out.push((u >> 40) as u8);
        self.out.push((u >> 32) as u8);
        self.out.push((u >> 24) as u8);
        self.out.push((u >> 16) as u8);
        self.out.push((u >> 8) as u8);
        self.out.push(u as u8);
        proof {
            assert(self@ =~= old(self)@ + enc_i64(v));
        }
    }

    /// Write a double as the eight big-endian bytes of its IEEE-754 bit
    /// pattern. The caller supplies the bit pattern, so the codec itself
    /// never holds a floating-point value.
    pub fn write_double_bits(&mut self, bits: u64)
        ensures
            final(self)@ == old(self)@ + enc_u64(bits),
    {
        self.out.push((bits >> 56) as u8);
        self.out.push((bits >> 48) as u8);
        self.out.push((bits >> 40) as u8);
        self.out.push((bits >> 32) as u8);
        self.out.push((bits >> 24) as u8);
        self.out.push((bits >> 16) as u8);
        self.out.push((bits >> 8) as u8);
        self.out.push(bits as u8);
        proof {
            assert(self@ =~= old(self)@ + enc_u64(bits));
        }
    }

    /// Write a binary blob: `i32` length prefix, then the raw bytes.
    pub fn write_binary(&mut self, s: &[u8])
        requires
            s@.len() <= i32::MAX,
        ensures
            final(self)@ == old(self)@ + enc_binary(s@),
    {
        self.write_i32(s.len() as i32);
        let ghost mid = self@;
        let mut i: usize = 0;
        while i < s.len()
            invariant
                i <= s@.len(),
                self@ == mid + s@.subrange(0, i as int),
            decreases s@.len() - i,
        {
            let b = s[i];
            self.out.push(b);
            i = i + 1;
            proof {
                assert(self@ =~= mid + s@.subrange(0, i as int));
            }
        }
        proof {
            assert(s@.subrange(0, s@.len() as int) =~= s@);
            assert(self@ =~= old(self)@ + enc_binary(s@));
        }
    }

    /// Write a field header: one tag byte, then the `i16` field id.
    /// A `Stop` header is written with `write_field_stop` instead.
    pub fn write_field_begin(&mut self, t: Tag, id: i16)
        requires
            t != Tag::Stop,
        ensures
            final(self)@ == old(self)@ + enc_field_header(t, id),
    {
        let b = crate::tag::tag_to_byte(t);
        self.out.push(b);
        self.write_i16(id);
        proof {
            assert(self@ =~= old(self)@ + enc_field_header(t, id));
        }
    }

    /// Write the `Stop` marker that terminates a struct's fields: the
    /// single byte 0, with no field id.
    pub fn write_field_stop(&mut self)
        ensures
            final(self)@ == old(self)@ + seq![tag_byte(Tag::Stop)],
    {
        self.out.push(0);
        proof {
            assert(self@ =~= old(self)@ + seq![tag_byte(Tag::Stop)]);
        }
    }

    /// End a field. Emits no bytes; kept for the symmetric contract shape.
    pub fn write_field_end(&mut self)
        ensures
            final(self)@ == old(self)@,
    {
    }

    /// Begin a struct. Emits no bytes: struct names are not serialized
    /// in this encoding family.
    pub fn write_struct_begin(&mut self)
        ensures
            final(self)@ == old(self)@,
    {
    }

    /// End a struct. Emits no bytes.
    pub fn write_struct_end(&mut self)
        ensures
            final(self)@ == old(self)@,
    {
    }

    /// Write a list header: element tag byte, then the `i32` count.
    pub fn write_list_begin(&mut self, elem: Tag, count: i32)
        requires
            count >= 0,
        ensures
            final(self)@ == old(self)@ + enc_list_header(elem, count),
    {
        let b = crate::tag::tag_to_byte(elem);
        self.out.push(b);
        self.write_i32(count);
        proof {
            assert(self@ =~= old(self)@ + enc_list_header(elem, count));
        }
    }

    /// End a list. Emits no bytes.
    pub fn write_list_end(&mut self)
        ensures
            final(self)@ == old(self)@,
    {
    }

    /// Write a set header; identical on the wire to a list header.
    pub fn write_set_begin(&mut self, elem: Tag, count: i32)
        requires
            count >= 0,
        ensures
            final(self)@ == old(self)@ + enc_list_header(elem, count),
    {
        self.write_list_begin(elem, count);
    }

    /// End a set. Emits no bytes.
    pub fn write_set_end(&mut self)
        ensures
            final(self)@ == old(self)@,
    {
    }

    /// Write a map header: key tag, value tag, then the `i32` count.
    pub fn write_map_begin(&mut self, key: Tag, value: Tag, count: i32)
        requires
            count >= 0,
        ensures
            final(self)@ == old(self)@ + enc_map_header(key, value, count),
    {
        let kb = crate::tag::tag_to_byte(key);
        self.out.push(kb);
        let vb = crate::tag::tag_to_byte(value);
        self.out.push(vb);
        self.write_i32(count);
        proof {
            assert(self@ =~= old(self)@ + enc_map_header(key, value, count));
        }
    }

    /// End a map. Emits no bytes.
    pub fn write_map_end(&mut self)
        ensures
            final(self)@ == old(self)@,
    {
    }

    /// Write a message envelope: the method name as a length-prefixed
    /// binary, one kind byte, then the `i32` sequence id.
    pub fn write_message_begin(&mut self, name: &[u8], kind: MessageKind, seq_id: i32)
        requires
            name@.len() <= i32::MAX,
        ensures
            final(self)@ == old(self)@ + enc_message_begin(name@, kind, seq_id),
    {
        self.write_binary(name);
        let kb = crate::tag::kind_to_byte(kind);
        self.out.push(kb);
        self.write_i32(seq_id);
        proof {
            assert(self@ =~= old(self)@ + enc_message_begin(name@, kind, seq_id));
        }
    }

    /// End a message. Emits no bytes.
    pub fn write_message_end(&mut self)
        ensures
            final(self)@ == old(self)@,
    {
    }
}

} // verus!
