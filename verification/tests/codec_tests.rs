use binproto::codec::BinWriter;
use binproto::reader::BinReader;
use binproto::tag::{MessageKind, Tag};
use binproto::{Error, ProtocolError};

#[test]
fn roundtrip_bool() {
    for v in [false, true] {
        let mut w = BinWriter::new();
        w.write_bool(v);
        let bytes = w.into_bytes();
        assert_eq!(bytes.len(), 1);
        let mut r = BinReader::new(bytes);
        assert_eq!(r.read_bool().unwrap(), v);
    }
}

#[test]
fn bool_reads_nonzero_as_true() {
    let mut r = BinReader::new(vec![2u8]);
    assert_eq!(r.read_bool().unwrap(), true);
}

#[test]
fn roundtrip_byte() {
    for v in [0u8, 1, 127, 128, 255] {
        let mut w = BinWriter::new();
        w.write_byte(v);
        let mut r = BinReader::new(w.into_bytes());
        assert_eq!(r.read_byte().unwrap(), v);
    }
}

#[test]
fn roundtrip_i16() {
    for v in [0i16, 1, -1, 257, i16::MIN, i16::MAX] {
        let mut w = BinWriter::new();
        w.write_i16(v);
        let bytes = w.into_bytes();
        assert_eq!(bytes.len(), 2);
        let mut r = BinReader::new(bytes);
        assert_eq!(r.read_i16().unwrap(), v);
    }
}

#[test]
fn roundtrip_i32() {
    for v in [0i32, 7, -7, 0x0102_0304, i32::MIN, i32::MAX] {
        let mut w = BinWriter::new();
        w.write_i32(v);
        let bytes = w.into_bytes();
        assert_eq!(bytes.len(), 4);
        let mut r = BinReader::new(bytes);
        assert_eq!(r.read_i32().unwrap(), v);
    }
}

#[test]
fn roundtrip_i64() {
    for v in [0i64, 1, -1, 0x0102_0304_0506_0708, i64::MIN, i64::MAX] {
        let mut w = BinWriter::new();
        w.write_i64(v);
        let bytes = w.into_bytes();
        assert_eq!(bytes.len(), 8);
        let mut r = BinReader::new(bytes);
        assert_eq!(r.read_i64().unwrap(), v);
    }
}

#[test]
fn roundtrip_double() {
    for v in [0.0f64, 1.5, -2.25, 1.0e300, f64::MIN_POSITIVE] {
        let mut w = BinWriter::new();
        w.write_double_bits(v.to_bits());
        let bytes = w.into_bytes();
        assert_eq!(bytes.len(), 8);
        let mut r = BinReader::new(bytes);
        assert_eq!(f64::from_bits(r.read_double_bits().unwrap()), v);
    }
}

#[test]
fn roundtrip_binary() {
    let cases: Vec<Vec<u8>> = vec![vec![], vec![0], vec![1, 2, 3], vec![0xffu8; 300]];
    for v in cases {
        let mut w = BinWriter::new();
        w.write_binary(&v);
        let bytes = w.into_bytes();
        assert_eq!(bytes.len(), 4 + v.len());
        let mut r = BinReader::new(bytes);
        assert_eq!(r.read_binary().unwrap(), v);
    }
}

#[test]
fn integers_are_big_endian() {
    let mut w = BinWriter::new();
    w.write_i32(0x0102_0304);
    assert_eq!(w.into_bytes(), vec![1u8, 2, 3, 4]);
    let mut w = BinWriter::new();
    w.write_i16(-2);
    assert_eq!(w.into_bytes(), vec![0xffu8, 0xfe]);
}

#[test]
fn binary_is_length_prefixed() {
    let mut w = BinWriter::new();
    w.write_binary(&[0xaa, 0xbb]);
    assert_eq!(w.into_bytes(), vec![0u8, 0, 0, 2, 0xaa, 0xbb]);
}

#[test]
fn field_header_layout() {
    let mut w = BinWriter::new();
    w.write_field_begin(Tag::I32, 7);
    w.write_field_stop();
    assert_eq!(w.into_bytes(), vec![8u8, 0, 7, 0]);
}

#[test]
fn struct_markers_emit_no_bytes() {
    let mut w = BinWriter::new();
    w.write_struct_begin();
    w.write_struct_end();
    w.write_field_end();
    w.write_message_end();
    assert_eq!(w.into_bytes(), Vec::<u8>::new());
}

#[test]
fn roundtrip_field_header() {
    let mut w = BinWriter::new();
    w.write_field_begin(Tag::I16, -3);
    let mut r = BinReader::new(w.into_bytes());
    assert_eq!(r.read_field_begin().unwrap(), (Tag::I16, -3));
}

#[test]
fn roundtrip_list_header() {
    let mut w = BinWriter::new();
    w.write_list_begin(Tag::Binary, 5);
    let mut r = BinReader::new(w.into_bytes());
    assert_eq!(r.read_list_begin().unwrap(), (Tag::Binary, 5));
}

#[test]
fn roundtrip_set_header() {
    let mut w = BinWriter::new();
    w.write_set_begin(Tag::I64, 2);
    let mut r = BinReader::new(w.into_bytes());
    assert_eq!(r.read_set_begin().unwrap(), (Tag::I64, 2));
}

#[test]
fn roundtrip_map_header() {
    let mut w = BinWriter::new();
    w.write_map_begin(Tag::I32, Tag::Struct, 9);
    let mut r = BinReader::new(w.into_bytes());
    assert_eq!(r.read_map_begin().unwrap(), (Tag::I32, Tag::Struct, 9));
}

#[test]
fn roundtrip_message_begin() {
    let mut w = BinWriter::new();
    w.write_message_begin(&[b'p', b'i', b'n', b'g'], MessageKind::Call, 42);
    let bytes = w.into_bytes();
    assert_eq!(
        bytes,
        vec![0u8, 0, 0, 4, b'p', b'i', b'n', b'g', 1, 0, 0, 0, 42]
    );
    let mut r = BinReader::new(bytes);
    let (name, kind, seq_id) = r.read_message_begin().unwrap();
    assert_eq!(name, vec![b'p', b'i', b'n', b'g']);
    assert_eq!(kind, MessageKind::Call);
    assert_eq!(seq_id, 42);
}

#[test]
fn short_read_is_transport_error() {
    let mut r = BinReader::new(vec![1u8, 2]);
    assert_eq!(r.read_i32(), Err(Error::TransportError));
    // the cursor is restored, so the shorter read still succeeds
    assert_eq!(r.read_i16().unwrap(), 0x0102);
}

#[test]
fn truncated_binary_is_transport_error() {
    // length prefix says 5 bytes, only 2 follow
    let mut r = BinReader::new(vec![0u8, 0, 0, 5, 1, 2]);
    assert_eq!(r.read_binary(), Err(Error::TransportError));
}

#[test]
fn negative_binary_length_is_protocol_error() {
    let mut r = BinReader::new(vec![0xffu8, 0xff, 0xff, 0xff, 0]);
    assert_eq!(
        r.read_binary(),
        Err(Error::ProtocolError(ProtocolError::NegativeCount))
    );
}

#[test]
fn unknown_message_kind_rejected() {
    let mut w = BinWriter::new();
    w.write_binary(&[b'x']);
    w.write_byte(9); // not a message kind
    w.write_i32(1);
    let mut r = BinReader::new(w.into_bytes());
    assert_eq!(
        r.read_message_begin(),
        Err(Error::ProtocolError(ProtocolError::UnknownMessageKind))
    );
}

#[test]
fn tag_bytes_round_trip() {
    let tags = [
        Tag::Stop,
        Tag::Void,
        Tag::Bool,
        Tag::Byte,
        Tag::Double,
        Tag::I16,
        Tag::I32,
        Tag::I64,
        Tag::Binary,
        Tag::Struct,
        Tag::TMap,
        Tag::TSet,
        Tag::List,
    ];
    for t in tags {
        assert_eq!(binproto::tag::byte_to_tag(binproto::tag::tag_to_byte(t)), Some(t));
    }
    assert_eq!(binproto::tag::byte_to_tag(5), None);
    assert_eq!(binproto::tag::byte_to_tag(16), None);
}

#[test]
fn kind_bytes_round_trip() {
    let kinds = [
        MessageKind::Call,
        MessageKind::Reply,
        MessageKind::Exception,
        MessageKind::Oneway,
    ];
    for k in kinds {
        assert_eq!(binproto::tag::byte_to_kind(binproto::tag::kind_to_byte(k)), Some(k));
    }
    assert_eq!(binproto::tag::byte_to_kind(0), None);
    assert_eq!(binproto::tag::byte_to_kind(5), None);
}
