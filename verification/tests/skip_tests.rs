use binproto::codec::BinWriter;
use binproto::reader::BinReader;
use binproto::tag::Tag;
use binproto::{Error, ProtocolError};

/// A struct with fields `{1: i32 = 7, 2: binary = "abc"}`, written in
/// the given field order, encodes to a fixed byte sequence and decodes
/// back to the same values whichever order was used.
fn encode_two_field_struct(id_first: bool) -> Vec<u8> {
    let mut w = BinWriter::new();
    w.write_struct_begin();
    if id_first {
        w.write_field_begin(Tag::I32, 1);
        w.write_i32(7);
        w.write_field_end();
        w.write_field_begin(Tag::Binary, 2);
        w.write_binary(b"abc");
        w.write_field_end();
    } else {
        w.write_field_begin(Tag::Binary, 2);
        w.write_binary(b"abc");
        w.write_field_end();
        w.write_field_begin(Tag::I32, 1);
        w.write_i32(7);
        w.write_field_end();
    }
    w.write_field_stop();
    w.write_struct_end();
    w.into_bytes()
}

fn decode_two_field_struct(bytes: Vec<u8>) -> (Option<i32>, Option<Vec<u8>>) {
    let mut r = BinReader::new(bytes);
    let mut number = None;
    let mut blob = None;
    r.read_struct_begin().unwrap();
    loop {
        let (t, id) = r.read_field_begin().unwrap();
        match (t, id) {
            (Tag::Stop, _) => break,
            (Tag::I32, 1) => number = Some(r.read_i32().unwrap()),
            (Tag::Binary, 2) => blob = Some(r.read_binary().unwrap()),
            (other, _) => r.skip(other).unwrap(),
        }
        r.read_field_end().unwrap();
    }
    r.read_struct_end().unwrap();
    (number, blob)
}

#[test]
fn struct_round_trip_fixed_bytes() {
    let bytes = encode_two_field_struct(true);
    assert_eq!(
        bytes,
        vec![
            8u8, 0, 1, 0, 0, 0, 7, // field 1: i32 = 7
            11, 0, 2, 0, 0, 0, 3, b'a', b'b', b'c', // field 2: "abc"
            0, // stop
        ]
    );
}

#[test]
fn struct_round_trip_either_field_order() {
    for id_first in [true, false] {
        let (number, blob) = decode_two_field_struct(encode_two_field_struct(id_first));
        assert_eq!(number, Some(7));
        assert_eq!(blob, Some(b"abc".to_vec()));
    }
}

/// A struct `{1: i32, 2: nested struct with 3 fields, 3: list<binary>
/// of length 5}` for the skip test.
fn encode_three_field_struct() -> Vec<u8> {
    let mut w = BinWriter::new();
    w.write_struct_begin();
    w.write_field_begin(Tag::I32, 1);
    w.write_i32(41);
    w.write_field_end();
    w.write_field_begin(Tag::Struct, 2);
    w.write_struct_begin();
    w.write_field_begin(Tag::Bool, 1);
    w.write_bool(true);
    w.write_field_end();
    w.write_field_begin(Tag::I64, 2);
    w.write_i64(-9);
    w.write_field_end();
    w.write_field_begin(Tag::Binary, 3);
    w.write_binary(b"xyz");
    w.write_field_end();
    w.write_field_stop();
    w.write_struct_end();
    w.write_field_end();
    w.write_field_begin(Tag::List, 3);
    w.write_list_begin(Tag::Binary, 5);
    for s in [b"a".as_slice(), b"bb", b"", b"cccc", b"d"] {
        w.write_binary(s);
    }
    w.write_list_end();
    w.write_field_end();
    w.write_field_stop();
    w.write_struct_end();
    w.into_bytes()
}

#[test]
fn skip_reaches_stop_at_same_position_as_full_decode() {
    let bytes = encode_three_field_struct();

    // decode recognizing only field 1, skipping fields 2 and 3
    let mut partial = BinReader::new(bytes.clone());
    let mut seen = None;
    loop {
        let (t, id) = partial.read_field_begin().unwrap();
        match (t, id) {
            (Tag::Stop, _) => break,
            (Tag::I32, 1) => seen = Some(partial.read_i32().unwrap()),
            (other, _) => partial.skip(other).unwrap(),
        }
    }
    assert_eq!(seen, Some(41));

    // decode every field explicitly
    let mut full = BinReader::new(bytes.clone());
    let (t, id) = full.read_field_begin().unwrap();
    assert_eq!((t, id), (Tag::I32, 1));
    assert_eq!(full.read_i32().unwrap(), 41);
    let (t, id) = full.read_field_begin().unwrap();
    assert_eq!((t, id), (Tag::Struct, 2));
    loop {
        let (t, _) = full.read_field_begin().unwrap();
        match t {
            Tag::Stop => break,
            Tag::Bool => assert_eq!(full.read_bool().unwrap(), true),
            Tag::I64 => assert_eq!(full.read_i64().unwrap(), -9),
            Tag::Binary => assert_eq!(full.read_binary().unwrap(), b"xyz".to_vec()),
            other => panic!("unexpected tag {other:?}"),
        }
    }
    let (t, id) = full.read_field_begin().unwrap();
    assert_eq!((t, id), (Tag::List, 3));
    let (elem, count) = full.read_list_begin().unwrap();
    assert_eq!((elem, count), (Tag::Binary, 5));
    for expected in [b"a".as_slice(), b"bb", b"", b"cccc", b"d"] {
        assert_eq!(full.read_binary().unwrap(), expected.to_vec());
    }
    full.read_list_end().unwrap();
    let (t, _) = full.read_field_begin().unwrap();
    assert_eq!(t, Tag::Stop);

    // both decoders consumed exactly the same byte span
    assert_eq!(partial.pos, full.pos);
    assert_eq!(partial.pos, bytes.len());
}

#[test]
fn skip_whole_struct_consumes_every_byte() {
    let bytes = encode_three_field_struct();
    let mut r = BinReader::new(bytes.clone());
    r.skip(Tag::Struct).unwrap();
    assert_eq!(r.pos, bytes.len());
}

#[test]
fn negative_list_count_rejected() {
    // element tag Bool, count -1: must fail, never loop or allocate
    let mut w = BinWriter::new();
    w.write_byte(2); // Bool element tag
    w.write_i32(-1);
    let bytes = w.into_bytes();
    let mut r = BinReader::new(bytes.clone());
    assert_eq!(
        r.read_list_begin(),
        Err(Error::ProtocolError(ProtocolError::NegativeCount))
    );
    let mut r = BinReader::new(bytes);
    assert_eq!(
        r.skip(Tag::List),
        Err(Error::ProtocolError(ProtocolError::NegativeCount))
    );
}

#[test]
fn negative_map_count_rejected() {
    let mut w = BinWriter::new();
    w.write_byte(8); // I32 key tag
    w.write_byte(11); // Binary value tag
    w.write_i32(-5);
    let mut r = BinReader::new(w.into_bytes());
    assert_eq!(
        r.read_map_begin(),
        Err(Error::ProtocolError(ProtocolError::NegativeCount))
    );
}

#[test]
fn unknown_type_tag_rejected_at_the_read() {
    // 5 is not a defined tag byte
    let mut r = BinReader::new(vec![5u8, 0, 1, 0]);
    assert_eq!(
        r.read_field_begin(),
        Err(Error::ProtocolError(ProtocolError::UnknownTypeTag))
    );
    // the cursor did not move, so later decoding is not corrupted
    assert_eq!(r.pos, 0);
}

#[test]
fn unknown_list_element_tag_rejected() {
    let mut r = BinReader::new(vec![16u8, 0, 0, 0, 1]);
    assert_eq!(
        r.read_list_begin(),
        Err(Error::ProtocolError(ProtocolError::UnknownTypeTag))
    );
}

#[test]
fn skip_of_stop_or_void_rejected() {
    let mut r = BinReader::new(vec![0u8, 1, 2]);
    assert_eq!(
        r.skip(Tag::Stop),
        Err(Error::ProtocolError(ProtocolError::InvalidSkipTag))
    );
    assert_eq!(
        r.skip(Tag::Void),
        Err(Error::ProtocolError(ProtocolError::InvalidSkipTag))
    );
    assert_eq!(r.pos, 0);
}

#[test]
fn skip_scalars_consume_exact_widths() {
    let bytes: Vec<u8> = (0..32u8).collect();
    for (tag, width) in [
        (Tag::Bool, 1usize),
        (Tag::Byte, 1),
        (Tag::I16, 2),
        (Tag::I32, 4),
        (Tag::I64, 8),
        (Tag::Double, 8),
    ] {
        let mut r = BinReader::new(bytes.clone());
        r.skip(tag).unwrap();
        assert_eq!(r.pos, width);
    }
}

#[test]
fn skip_map_consumes_all_pairs() {
    let mut w = BinWriter::new();
    w.write_map_begin(Tag::I32, Tag::Binary, 2);
    w.write_i32(1);
    w.write_binary(b"one");
    w.write_i32(2);
    w.write_binary(b"two");
    w.write_map_end();
    let bytes = w.into_bytes();
    let mut r = BinReader::new(bytes.clone());
    r.skip(Tag::TMap).unwrap();
    assert_eq!(r.pos, bytes.len());
}

#[test]
fn skip_truncated_struct_is_transport_error() {
    // field header promises an i32 but only two bytes follow
    let mut r = BinReader::new(vec![8u8, 0, 1, 0, 0]);
    assert_eq!(r.skip(Tag::Struct), Err(Error::TransportError));
}

#[test]
fn skip_set_consumes_all_elements() {
    let mut w = BinWriter::new();
    w.write_set_begin(Tag::I16, 3);
    for v in [1i16, 2, 3] {
        w.write_i16(v);
    }
    w.write_set_end();
    let bytes = w.into_bytes();
    let mut r = BinReader::new(bytes.clone());
    r.skip(Tag::TSet).unwrap();
    assert_eq!(r.pos, bytes.len());
}
