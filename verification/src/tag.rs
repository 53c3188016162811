//! Wire type tags and message kinds, and their byte encodings.

use vstd::prelude::*;

verus! {

/// The closed enumeration of wire type tags. `Stop` is a sentinel that
/// terminates a struct's field sequence, not a value type.
#[derive(Clone, Copy, Debug, PartialEq, Eq, Structural)]
pub enum Tag {
    Stop,
    Void,
    Bool,
    Byte,
    Double,
    I16,
    I32,
    I64,
    Binary,
    Struct,
    TMap,
    TSet,
    List,
}

/// The closed enumeration of message envelope kinds.
#[derive(Clone, Copy, Debug, PartialEq, Eq, Structural)]
pub enum MessageKind {
    Call,
    Reply,
    Exception,
    Oneway,
}

/// The byte that encodes each type tag on the wire.
pub open spec fn tag_byte(t: Tag) -> u8 {
    match t {
        Tag::Stop => 0,
        Tag::Void => 1,
        Tag::Bool => 2,
        Tag::Byte => 3,
        Tag::Double => 4,
        Tag::I16 => 6,
        Tag::I32 => 8,
        Tag::I64 => 10,
        Tag::Binary => 11,
        Tag::Struct => 12,
        Tag::TMap => 13,
        Tag::TSet => 14,
        Tag::List => 15,
    }
}

/// The type tag a byte decodes to, if any.
pub open spec fn tag_of_byte(b: u8) -> Option<Tag> {
    if b == 0 {
        Some(Tag::Stop)
    } else if b == 1 {
        Some(Tag::Void)
    } else if b == 2 {
        Some(Tag::Bool)
    } else if b == 3 {
        Some(Tag::Byte)
    } else if b == 4 {
        Some(Tag::Double)
    } else if b == 6 {
        Some(Tag::I16)
    } else if b == 8 {
        Some(Tag::I32)
    } else if b == 10 {
        Some(Tag::I64)
    } else if b == 11 {
        Some(Tag::Binary)
    } else if b == 12 {
        Some(Tag::Struct)
    } else if b == 13 {
        Some(Tag::TMap)
    } else if b == 14 {
        Some(Tag::TSet)
    } else if b == 15 {
        Some(Tag::List)
    } else {
        None
    }
}

/// The byte that encodes each message kind on the wire.
pub open spec fn kind_byte(k: MessageKind) -> u8 {
    match k {
        MessageKind::Call => 1,
        MessageKind::Reply => 2,
        MessageKind::Exception => 3,
        MessageKind::Oneway => 4,
    }
}

/// The message kind a byte decodes to, if any.
pub open spec fn kind_of_byte(b: u8) -> Option<MessageKind> {
    if b == 1 {
        Some(MessageKind::Call)
    } else if b == 2 {
        Some(MessageKind::Reply)
    } else if b == 3 {
        Some(MessageKind::Exception)
    } else if b == 4 {
        Some(MessageKind::Oneway)
    } else {
        None
    }
}

/// Decoding a tag byte undoes encoding it.
pub proof fn lemma_tag_byte_round_trip(t: Tag)
    ensures
        tag_of_byte(tag_byte(t)) == Some(t),
{
}

/// Decoding a kind byte undoes encoding it.
pub proof fn lemma_kind_byte_round_trip(k: MessageKind)
    ensures
        kind_of_byte(kind_byte(k)) == Some(k),
{
}

/// Encode a type tag as its wire byte.
pub fn tag_to_byte(t: Tag) -> (b: u8)
    ensures
        b == tag_byte(t),
{
    match t {
        Tag::Stop => 0,
        Tag::Void => 1,
        Tag::Bool => 2,
        Tag::Byte => 3,
        Tag::Double => 4,
        Tag::I16 => 6,
        Tag::I32 => 8,
        Tag::I64 => 10,
        Tag::Binary => 11,
        Tag::Struct => 12,
        Tag::TMap => 13,
        Tag::TSet => 14,
        Tag::List => 15,
    }
}

/// Decode a wire byte into a type tag; `None` on a byte outside the
/// enumeration.
pub fn byte_to_tag(b: u8) -> (t: Option<Tag>)
    ensures
        t == tag_of_byte(b),
{
    if b == 0 {
        Some(Tag::Stop)
    } else if b == 1 {
        Some(Tag::Void)
    } else if b == 2 {
        Some(Tag::Bool)
    } else if b == 3 {
        Some(Tag::Byte)
    } else if b == 4 {
        Some(Tag::Double)
    } else if b == 6 {
        Some(Tag::I16)
    } else if b == 8 {
        Some(Tag::I32)
    } else if b == 10 {
        Some(Tag::I64)
    } else if b == 11 {
        Some(Tag::Binary)
    } else if b == 12 {
        Some(Tag::Struct)
    } else if b == 13 {
        Some(Tag::TMap)
    } else if b == 14 {
        Some(Tag::TSet)
    } else if b == 15 {
        Some(Tag::List)
    } else {
        None
    }
}

/// Encode a message kind as its wire byte.
pub fn kind_to_byte(k: MessageKind) -> (b: u8)
    ensures
        b == kind_byte(k),
{
    match k {
        MessageKind::Call => 1,
        MessageKind::Reply => 2,
        MessageKind::Exception => 3,
        MessageKind::Oneway => 4,
    }
}

/// Decode a wire byte into a message kind; `None` on a byte outside the
/// enumeration.
pub fn byte_to_kind(b: u8) -> (k: Option<MessageKind>)
    ensures
        k == kind_of_byte(b),
{
    if b == 1 {
        Some(MessageKind::Call)
    } else if b == 2 {
        Some(MessageKind::Reply)
    } else if b == 3 {
        Some(MessageKind::Exception)
    } else if b == 4 {
        Some(MessageKind::Oneway)
    } else {
        None
    }
}

} // verus!
