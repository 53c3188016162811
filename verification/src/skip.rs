//! The recursive skip traversal: consume and discard exactly one value
//! of a given wire type, recursing into structs, lists, sets and maps.
//!
//! Skipping is what lets a decoder tolerate fields it does not
//! understand: an unrecognized field id is skipped, and because the
//! skip consumes precisely the byte span that the corresponding write
//! produced, the struct's terminating `Stop` byte is always reached at
//! the right position.
//!
//! The spec functions here define, over the raw bytes, where one value
//! of each tag ends; the exec routines are proved to land exactly
//! there, succeeding if and only if the spec finds a well-formed value.

use vstd::prelude::*;

use crate::codec::dec_i32;
use crate::reader::{bin_end, bin_ok, BinReader};
use crate::tag::{tag_of_byte, Tag};
use crate::{Error, ProtocolError};

verus! {

/// The position just past one value of type `t` starting at `pos`, or
/// `None` when the bytes there do not form a well-formed value (the
/// stream is too short, a tag byte is outside the enumeration, or a
/// count is negative). `Stop` and `Void` are not value types and always
/// yield `None`.
pub open spec fn skip_end(data: Seq<u8>, pos: int, t: Tag) -> Option<int>
    decreases data.len() - pos, 1int, 0int,
{
    match t {
        Tag::Stop => None,
        Tag::Void => None,
        Tag::Bool => fixed_end(data, pos, 1),
        Tag::Byte => fixed_end(data, pos, 1),
        Tag::Double => fixed_end(data, pos, 8),
        Tag::I16 => fixed_end(data, pos, 2),
        Tag::I32 => fixed_end(data, pos, 4),
        Tag::I64 => fixed_end(data, pos, 8),
        Tag::Binary => if bin_ok(data, pos) {
            Some(bin_end(data, pos))
        } else {
            None
        },
        Tag::Struct => skip_fields_end(data, pos),
        Tag::List | Tag::TSet => {
            if 0 <= pos && pos + 5 <= data.len() {
                match tag_of_byte(data[pos]) {
                    Some(elem) => {
                        let count = dec_i32(data.subrange(pos + 1, pos + 5));
                        if count >= 0 {
                            skip_many_end(data, pos + 5, elem, count as int)
                        } else {
                            None
                        }
                    },
                    None => None,
                }
            } else {
                None
            }
        },
        Tag::TMap => {
            if 0 <= pos && pos + 6 <= data.len() {
                match (tag_of_byte(data[pos]), tag_of_byte(data[pos + 1])) {
                    (Some(key), Some(value)) => {
                        let count = dec_i32(data.subrange(pos + 2, pos + 6));
                        if count >= 0 {
                            skip_pairs_end(data, pos + 6, key, value, count as int)
                        } else {
                            None
                        }
                    },
                    _ => None,
                }
            } else {
                None
            }
        },
    }
}

/// The end of a fixed-width scalar of `width` bytes starting at `pos`.
pub open spec fn fixed_end(data: Seq<u8>, pos: int, width: int) -> Option<int> {
    if 0 <= pos && pos + width <= data.len() {
        Some(pos + width)
    } else {
        None
    }
}

/// The position just past a struct body starting at `pos`: field
/// headers and values up to and including the terminating `Stop` byte.
pub open spec fn skip_fields_end(data: Seq<u8>, pos: int) -> Option<int>
    decreases data.len() - pos, 0int, 0int,
{
    if 0 <= pos && pos + 1 <= data.len() {
        match tag_of_byte(data[pos]) {
            Some(Tag::Stop) => Some(pos + 1),
            Some(t) => {
                if pos + 3 <= data.len() {
                    match skip_end(data, pos + 3, t) {
                        Some(p2) => {
                            if pos + 3 < p2 <= data.len() {
                                skip_fields_end(data, p2)
                            } else {
                                None
                            }
                        },
                        None => None,
                    }
                } else {
                    None
                }
            },
            None => None,
        }
    } else {
        None
    }
}

/// The position just past `n` consecutive values of type `t` starting
/// at `pos`.
pub open spec fn skip_many_end(data: Seq<u8>, pos: int, t: Tag, n: int) -> Option<int>
    decreases data.len() - pos, 2int, n,
{
    if n <= 0 {
        if 0 <= pos {
            Some(pos)
        } else {
            None
        }
    } else {
        match skip_end(data, pos, t) {
            Some(p2) => {
                if pos < p2 <= data.len() {
                    skip_many_end(data, p2, t, n - 1)
                } else {
                    None
                }
            },
            None => None,
        }
    }
}

/// The position just past `n` consecutive key/value pairs of types
/// `key` and `value` starting at `pos`.
pub open spec fn skip_pairs_end(data: Seq<u8>, pos: int, key: Tag, value: Tag, n: int) -> Option<
    int,
>
    decreases data.len() - pos, 2int, n,
{
    if n <= 0 {
        if 0 <= pos {
            Some(pos)
        } else {
            None
        }
    } else {
        match skip_end(data, pos, key) {
            Some(p2) => {
                if pos < p2 <= data.len() {
                    match skip_end(data, p2, value) {
                        Some(p3) => {
                            if p2 < p3 <= data.len() {
                                skip_pairs_end(data, p3, key, value, n - 1)
                            } else {
                                None
                            }
                        },
                        None => None,
                    }
                } else {
                    None
                }
            },
            None => None,
        }
    }
}

/// One unfolding of `skip_fields_end`, spelled out as an if-chain so a
/// caller can relate one decoded field to the rest of the struct body.
pub proof fn lemma_skip_fields_unfold(data: Seq<u8>, pos: int)
    requires
        0 <= pos,
    ensures
        skip_fields_end(data, pos) == (if pos + 1 > data.len() {
            None
        } else if tag_of_byte(data[pos]) is None {
            None
        } else if tag_of_byte(data[pos]) == Some(Tag::Stop) {
            Some(pos + 1)
        } else if pos + 3 > data.len() {
            None
        } else if skip_end(data, pos + 3, tag_of_byte(data[pos]).unwrap()) is None {
            None
        } else if !(pos + 3 < skip_end(data, pos + 3, tag_of_byte(data[pos]).unwrap()).unwrap()
            <= data.len()) {
            None
        } else {
            skip_fields_end(data, skip_end(data, pos + 3, tag_of_byte(data[pos]).unwrap()).unwrap())
        }),
{
}

/// One unfolding of `skip_many_end`.
pub proof fn lemma_skip_many_unfold(data: Seq<u8>, pos: int, t: Tag, n: int)
    requires
        0 <= pos,
    ensures
        skip_many_end(data, pos, t, n) == (if n <= 0 {
            Some(pos)
        } else if skip_end(data, pos, t) is None {
            None
        } else if !(pos < skip_end(data, pos, t).unwrap() <= data.len()) {
            None
        } else {
            skip_many_end(data, skip_end(data, pos, t).unwrap(), t, n - 1)
        }),
{
}

/// One unfolding of `skip_pairs_end`.
pub proof fn lemma_skip_pairs_unfold(data: Seq<u8>, pos: int, key: Tag, value: Tag, n: int)
    requires
        0 <= pos,
    ensures
        skip_pairs_end(data, pos, key, value, n) == (if n <= 0 {
            Some(pos)
        } else if skip_end(data, pos, key) is None {
            None
        } else if !(pos < skip_end(data, pos, key).unwrap() <= data.len()) {
            None
        } else if skip_end(data, skip_end(data, pos, key).unwrap(), value) is None {
            None
        } else if !(skip_end(data, pos, key).unwrap() < skip_end(
            data,
            skip_end(data, pos, key).unwrap(),
            value,
        ).unwrap() <= data.len()) {
            None
        } else {
            skip_pairs_end(
                data,
                skip_end(data, skip_end(data, pos, key).unwrap(), value).unwrap(),
                key,
                value,
                n - 1,
            )
        }),
{
}

/// The value of `skip_end` at each non-container tag, and its
/// reduction to `skip_fields_end` for `Struct`.
pub proof fn lemma_skip_end_scalars(data: Seq<u8>, pos: int)
    requires
        0 <= pos,
    ensures
        skip_end(data, pos, Tag::Stop) is None,
        skip_end(data, pos, Tag::Void) is None,
        skip_end(data, pos, Tag::Bool) == fixed_end(data, pos, 1),
        skip_end(data, pos, Tag::Byte) == fixed_end(data, pos, 1),
        skip_end(data, pos, Tag::Double) == fixed_end(data, pos, 8),
        skip_end(data, pos, Tag::I16) == fixed_end(data, pos, 2),
        skip_end(data, pos, Tag::I32) == fixed_end(data, pos, 4),
        skip_end(data, pos, Tag::I64) == fixed_end(data, pos, 8),
        skip_end(data, pos, Tag::Binary) == (if bin_ok(data, pos) {
            Some(bin_end(data, pos))
        } else {
            None
        }),
        skip_end(data, pos, Tag::Struct) == skip_fields_end(data, pos),
{
}

/// One unfolding of `skip_end` at a list or set header.
pub proof fn lemma_skip_end_list_unfold(data: Seq<u8>, pos: int, t: Tag)
    requires
        0 <= pos,
        t == Tag::List || t == Tag::TSet,
    ensures
        skip_end(data, pos, t) == (if pos + 5 > data.len() {
            None
        } else if tag_of_byte(data[pos]) is None {
            None
        } else if dec_i32(data.subrange(pos + 1, pos + 5)) < 0 {
            None
        } else {
            skip_many_end(
                data,
                pos + 5,
                tag_of_byte(data[pos]).unwrap(),
                dec_i32(data.subrange(pos + 1, pos + 5)) as int,
            )
        }),
{
}

/// One unfolding of `skip_end` at a map header.
pub proof fn lemma_skip_end_map_unfold(data: Seq<u8>, pos: int)
    requires
        0 <= pos,
    ensures
        skip_end(data, pos, Tag::TMap) == (if pos + 6 > data.len() {
            None
        } else if tag_of_byte(data[pos]) is None || tag_of_byte(data[pos + 1]) is None {
            None
        } else if dec_i32(data.subrange(pos + 2, pos + 6)) < 0 {
            None
        } else {
            skip_pairs_end(
                data,
                pos + 6,
                tag_of_byte(data[pos]).unwrap(),
                tag_of_byte(data[pos + 1]).unwrap(),
                dec_i32(data.subrange(pos + 2, pos + 6)) as int,
            )
        }),
{
}

impl BinReader {
    /// Consume and discard exactly one value of type `t`, recursing
    /// into structs, lists, sets and maps. Succeeds if and only if a
    /// well-formed value of `t` starts at the cursor, and then lands
    /// exactly at its end; `Stop` and `Void` are rejected as skip
    /// targets.
    pub fn skip(&mut self, t: Tag) -> (r: Result<(), Error>)
        requires
            old(self).wf(),
        ensures
            final(self).wf(),
            final(self).data() == old(self).data(),
            final(self).at() >= old(self).at(),
            r is Ok <==> skip_end(old(self).data(), old(self).at(), t) is Some,
            r is Ok ==> Some(final(self).at()) == skip_end(old(self).data(), old(self).at(), t)
                && final(self).at() > old(self).at(),
            r matches Err(e) ==> (e == Error::TransportError || e matches Error::ProtocolError(_)),
        decreases self.data().len() - self.at(), 1int, 0int,
    {
        match t {
            Tag::Stop => Err(Error::ProtocolError(ProtocolError::InvalidSkipTag)),
            Tag::Void => Err(Error::ProtocolError(ProtocolError::InvalidSkipTag)),
            Tag::Bool => {
                self.read_byte()?;
                Ok(())
            },
            Tag::Byte => {
                self.read_byte()?;
                Ok(())
            },
            Tag::Double => {
                self.read_double_bits()?;
                Ok(())
            },
            Tag::I16 => {
                self.read_i16()?;
                Ok(())
            },
            Tag::I32 => {
                self.read_i32()?;
                Ok(())
            },
            Tag::I64 => {
                self.read_i64()?;
                Ok(())
            },
            Tag::Binary => {
                self.read_binary()?;
                Ok(())
            },
            Tag::Struct => self.skip_fields(),
            Tag::List | Tag::TSet => {
                let (elem, count) = self.read_list_begin()?;
                self.skip_many(elem, count)
            },
            Tag::TMap => {
                let (key, value, count) = self.read_map_begin()?;
                self.skip_pairs(key, value, count)
            },
        }
    }

    /// Consume a struct body: field headers and values up to and
    /// including the terminating `Stop` byte.
    fn skip_fields(&mut self) -> (r: Result<(), Error>)
        requires
            old(self).wf(),
        ensures
            final(self).wf(),
            final(self).data() == old(self).data(),
            final(self).at() >= old(self).at(),
            r is Ok <==> skip_fields_end(old(self).data(), old(self).at()) is Some,
            r is Ok ==> Some(final(self).at()) == skip_fields_end(old(self).data(), old(self).at())
                && final(self).at() > old(self).at(),
            r matches Err(e) ==> (e == Error::TransportError || e matches Error::ProtocolError(_)),
        decreases self.data().len() - self.at(), 0int, 0int,
    {
        let (t, _id) = self.read_field_begin()?;
        if let Tag::Stop = t {
            return Ok(());
        }
        self.skip(t)?;
        self.skip_fields()
    }

    /// Consume `count` consecutive values of type `t`.
    pub(crate) fn skip_many(&mut self, t: Tag, count: i32) -> (r: Result<(), Error>)
        requires
            old(self).wf(),
            count >= 0,
        ensures
            final(self).wf(),
            final(self).data() == old(self).data(),
            final(self).at() >= old(self).at(),
            r is Ok <==> skip_many_end(old(self).data(), old(self).at(), t, count as int) is Some,
            r is Ok ==> Some(final(self).at()) == skip_many_end(
                old(self).data(),
                old(self).at(),
                t,
                count as int,
            ),
            r matches Err(e) ==> (e == Error::TransportError || e matches Error::ProtocolError(_)),
        decreases self.data().len() - self.at(), 2int, count,
    {
        if count == 0 {
            return Ok(());
        }
        self.skip(t)?;
        self.skip_many(t, count - 1)
    }

    /// Consume `count` consecutive key/value pairs.
    pub(crate) fn skip_pairs(&mut self, key: Tag, value: Tag, count: i32) -> (r: Result<(), Error>)
        requires
            old(self).wf(),
            count >= 0,
        ensures
            final(self).wf(),
            final(self).data() == old(self).data(),
            final(self).at() >= old(self).at(),
            r is Ok <==> skip_pairs_end(
                old(self).data(),
                old(self).at(),
                key,
                value,
                count as int,
            ) is Some,
            r is Ok ==> Some(final(self).at()) == skip_pairs_end(
                old(self).data(),
                old(self).at(),
                key,
                value,
                count as int,
            ),
            r matches Err(e) ==> (e == Error::TransportError || e matches Error::ProtocolError(_)),
        decreases self.data().len() - self.at(), 2int, count,
    {
        if count == 0 {
            return Ok(());
        }
        self.skip(key)?;
        self.skip(value)?;
        self.skip_pairs(key, value, count - 1)
    }
}

} // verus!
