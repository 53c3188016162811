use binproto::codec::BinWriter;
use binproto::reader::BinReader;
use binproto::rpc::{
    decode_default_response, decode_ports_stats_reply, decode_routes_reply,
    encode_add_route_request, encode_delete_route_request, encode_ports_stats_request,
    encode_routes_request, encode_sync_fib_request, read_binary_address, Ipv4Octets,
};
use binproto::tag::{MessageKind, Tag};

fn write_binary_address_struct(w: &mut BinWriter, octets: &[u8]) {
    w.write_struct_begin();
    w.write_field_begin(Tag::Binary, 1);
    w.write_binary(octets);
    w.write_field_end();
    w.write_field_begin(Tag::I64, 2);
    w.write_i64(0);
    w.write_field_end();
    w.write_field_stop();
    w.write_struct_end();
}

#[test]
fn sync_fib_request_exact_bytes() {
    let bytes = encode_sync_fib_request(101);
    let mut expected: Vec<u8> = vec![0, 0, 0, 7];
    expected.extend_from_slice(b"syncFib");
    expected.push(1); // Call
    expected.extend_from_slice(&[0, 0, 0, 101]); // sequence id
    expected.push(0); // empty argument struct: Stop
    assert_eq!(bytes, expected);
}

#[test]
fn fetch_requests_share_the_empty_args_shape() {
    let bytes = encode_ports_stats_request(99);
    let mut r = BinReader::new(bytes);
    let (name, kind, seq_id) = r.read_message_begin().unwrap();
    assert_eq!(name, b"getAllPortStats".to_vec());
    assert_eq!(kind, MessageKind::Call);
    assert_eq!(seq_id, 99);
    let (t, _) = r.read_field_begin().unwrap();
    assert_eq!(t, Tag::Stop);

    let bytes = encode_routes_request(100);
    let mut r = BinReader::new(bytes);
    let (name, kind, seq_id) = r.read_message_begin().unwrap();
    assert_eq!(name, b"getRouteTable".to_vec());
    assert_eq!(kind, MessageKind::Call);
    assert_eq!(seq_id, 100);
}

#[test]
fn add_route_request_is_one_well_formed_message() {
    let from = Ipv4Octets { a: 10, b: 0, c: 0, d: 0 };
    let to = Ipv4Octets { a: 10, b: 0, c: 0, d: 1 };
    let bytes = encode_add_route_request(102, from, 24, to);
    let len = bytes.len();
    let mut r = BinReader::new(bytes);
    let (name, kind, seq_id) = r.read_message_begin().unwrap();
    assert_eq!(name, b"addUnicastRoute".to_vec());
    assert_eq!(kind, MessageKind::Call);
    assert_eq!(seq_id, 102);
    // the argument struct must be exactly the rest of the message
    r.skip(Tag::Struct).unwrap();
    assert_eq!(r.pos, len);
}

#[test]
fn delete_route_request_is_one_well_formed_message() {
    let from = Ipv4Octets { a: 192, b: 168, c: 7, d: 0 };
    let bytes = encode_delete_route_request(103, from, 16);
    let len = bytes.len();
    let mut r = BinReader::new(bytes);
    let (name, _, _) = r.read_message_begin().unwrap();
    assert_eq!(name, b"deleteUnicastRoute".to_vec());
    r.skip(Tag::Struct).unwrap();
    assert_eq!(r.pos, len);
}

#[test]
fn envelope_exception_kind_is_distinguishable() {
    let mut w = BinWriter::new();
    w.write_message_begin(b"getRouteTable", MessageKind::Exception, 100);
    let mut r = BinReader::new(w.into_bytes());
    let kind = decode_default_response(&mut r).unwrap();
    assert_eq!(kind, MessageKind::Exception);
    assert_ne!(kind, MessageKind::Reply);
}

#[test]
fn non_reply_yields_empty_result() {
    let mut w = BinWriter::new();
    w.write_message_begin(b"getRouteTable", MessageKind::Exception, 100);
    let mut r = BinReader::new(w.into_bytes());
    let routes = decode_routes_reply(&mut r).unwrap();
    assert!(routes.is_empty());
}

#[test]
fn fetch_route_table_end_to_end() {
    // request: empty-args struct, sequence id 100
    let request = encode_routes_request(100);
    let mut r = BinReader::new(request);
    let (name, kind, seq_id) = r.read_message_begin().unwrap();
    assert_eq!(name, b"getRouteTable".to_vec());
    assert_eq!(kind, MessageKind::Call);
    assert_eq!(seq_id, 100);

    // peer reply: a list of 2 route entries, each {1: prefix struct
    // (ip=10.0.0.0/24), 2: next-hop list of length 1 = [10.0.0.1]}
    let mut w = BinWriter::new();
    w.write_message_begin(b"getRouteTable", MessageKind::Reply, 100);
    w.write_struct_begin();
    w.write_field_begin(Tag::List, 0);
    w.write_list_begin(Tag::Struct, 2);
    for _ in 0..2 {
        w.write_struct_begin();
        w.write_field_begin(Tag::Struct, 1);
        w.write_struct_begin();
        w.write_field_begin(Tag::Struct, 1);
        write_binary_address_struct(&mut w, &[10, 0, 0, 0]);
        w.write_field_end();
        w.write_field_begin(Tag::I16, 2);
        w.write_i16(24);
        w.write_field_end();
        w.write_field_stop();
        w.write_struct_end();
        w.write_field_end();
        w.write_field_begin(Tag::List, 2);
        w.write_list_begin(Tag::Struct, 1);
        write_binary_address_struct(&mut w, &[10, 0, 0, 1]);
        w.write_list_end();
        w.write_field_end();
        w.write_field_stop();
        w.write_struct_end();
    }
    w.write_list_end();
    w.write_field_end();
    w.write_field_stop();
    w.write_struct_end();
    w.write_message_end();

    let mut r = BinReader::new(w.into_bytes());
    let routes = decode_routes_reply(&mut r).unwrap();
    assert_eq!(routes.len(), 2);
    for route in &routes {
        assert_eq!(route.from, "10.0.0.0/24");
        assert_eq!(route.to, "10.0.0.1");
    }
}

#[test]
fn route_decoder_skips_unknown_fields() {
    // the route struct carries an extra field 9 the client does not know
    let mut w = BinWriter::new();
    w.write_message_begin(b"getRouteTable", MessageKind::Reply, 100);
    w.write_struct_begin();
    w.write_field_begin(Tag::List, 0);
    w.write_list_begin(Tag::Struct, 1);
    w.write_struct_begin();
    w.write_field_begin(Tag::Binary, 9);
    w.write_binary(b"future schema");
    w.write_field_end();
    w.write_field_begin(Tag::Struct, 1);
    w.write_struct_begin();
    w.write_field_begin(Tag::Struct, 1);
    write_binary_address_struct(&mut w, &[172, 16, 0, 0]);
    w.write_field_end();
    w.write_field_begin(Tag::I16, 2);
    w.write_i16(12);
    w.write_field_end();
    w.write_field_stop();
    w.write_struct_end();
    w.write_field_end();
    w.write_field_stop();
    w.write_struct_end();
    w.write_list_end();
    w.write_field_end();
    w.write_field_stop();
    w.write_struct_end();

    let mut r = BinReader::new(w.into_bytes());
    let routes = decode_routes_reply(&mut r).unwrap();
    assert_eq!(routes.len(), 1);
    assert_eq!(routes[0].from, "172.16.0.0/12");
    assert_eq!(routes[0].to, "undefined");
}

#[test]
fn ports_stats_reply_decodes_map_entries() {
    let mut w = BinWriter::new();
    w.write_message_begin(b"getAllPortStats", MessageKind::Reply, 99);
    w.write_struct_begin();
    w.write_field_begin(Tag::TMap, 0);
    w.write_map_begin(Tag::I32, Tag::Struct, 2);
    for (port, oper_state) in [(3i32, 1i32), (5, 0)] {
        w.write_i32(port);
        w.write_struct_begin();
        w.write_field_begin(Tag::I32, 4);
        w.write_i32(oper_state);
        w.write_field_end();
        w.write_field_stop();
        w.write_struct_end();
    }
    w.write_map_end();
    w.write_field_end();
    w.write_field_stop();
    w.write_struct_end();

    let mut r = BinReader::new(w.into_bytes());
    let stats = decode_ports_stats_reply(&mut r).unwrap();
    assert_eq!(stats.len(), 2);
    assert_eq!(stats[0].id, 3);
    assert!(stats[0].connected);
    assert_eq!(stats[1].id, 5);
    assert!(!stats[1].connected);
}

#[test]
fn ipv6_next_hop_renders_as_hextets() {
    // 16 raw bytes 00 01 00 02 ... 00 08
    let octets: Vec<u8> = (1u8..=8).flat_map(|g| [0u8, g]).collect();
    let mut w = BinWriter::new();
    write_binary_address_struct(&mut w, &octets);
    let mut r = BinReader::new(w.into_bytes());
    let rendered = read_binary_address(&mut r).unwrap();
    assert_eq!(rendered, "1:2:3:4:5:6:7:8");
}

#[test]
fn binary_address_without_address_field_is_undefined() {
    let mut w = BinWriter::new();
    w.write_struct_begin();
    w.write_field_begin(Tag::I64, 2);
    w.write_i64(0);
    w.write_field_end();
    w.write_field_stop();
    w.write_struct_end();
    let mut r = BinReader::new(w.into_bytes());
    assert_eq!(read_binary_address(&mut r).unwrap(), "undefined");
}

#[test]
fn default_response_reports_each_kind() {
    for kind in [MessageKind::Reply, MessageKind::Oneway, MessageKind::Call] {
        let mut w = BinWriter::new();
        w.write_message_begin(b"syncFib", kind, 101);
        let mut r = BinReader::new(w.into_bytes());
        assert_eq!(decode_default_response(&mut r).unwrap(), kind);
    }
}

#[test]
fn ports_reply_with_exception_kind_is_empty() {
    let mut w = BinWriter::new();
    w.write_message_begin(b"getAllPortStats", MessageKind::Exception, 99);
    let mut r = BinReader::new(w.into_bytes());
    let stats = decode_ports_stats_reply(&mut r).unwrap();
    assert!(stats.is_empty());
}
