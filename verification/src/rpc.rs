//! The route-management client layer: encoding of the five RPC
//! requests and decoding of their replies, built on the binary codec.
//!
//! The codec knows nothing of these struct shapes; this layer defines
//! which field ids it cares about and skips every other field, so a
//! newer peer's extra fields are tolerated. Every request encoder is
//! proved to emit exactly the spec-level byte sequence of its message;
//! every reply decoder is proved to consume exactly one well-formed
//! envelope-plus-struct span, succeeding if and only if such a span
//! starts at the cursor.

use vstd::prelude::*;

use crate::addr::{dec_str_i16, format_ipv4, format_ipv6};
use crate::codec::{
    enc_binary, enc_field_header, enc_i16, enc_i64, enc_list_header, enc_message_begin, BinWriter,
};
use crate::reader::{bin_end, bin_ok, BinReader};
use crate::skip::{lemma_skip_end_list_unfold, lemma_skip_end_map_unfold, lemma_skip_end_scalars,
    lemma_skip_fields_unfold, lemma_skip_many_unfold, lemma_skip_pairs_unfold, skip_end,
    skip_fields_end, skip_many_end, skip_pairs_end};
use crate::tag::{kind_of_byte, tag_of_byte, MessageKind, Tag};
use crate::Error;

verus! {

/// The operational state of one switch port.
pub struct PortStat {
    /// The port's numeric id.
    pub id: i32,
    /// Whether the port's operational state is up.
    pub connected: bool,
}

/// One route table entry, rendered as text: a prefix such as
/// `10.0.0.0/24` and a next-hop address.
pub struct Route {
    /// The destination prefix, as `address/length`.
    pub from: String,
    /// The next-hop address.
    pub to: String,
}

/// Four IPv4 address octets as plain values.
#[derive(Clone, Copy, Debug, PartialEq, Eq, Structural)]
pub struct Ipv4Octets {
    pub a: u8,
    pub b: u8,
    pub c: u8,
    pub d: u8,
}

impl Ipv4Octets {
    /// The four octets in address order.
    pub open spec fn bytes(self) -> Seq<u8> {
        seq![self.a, self.b, self.c, self.d]
    }
}

/// The method name `getAllPortStats`, as its wire bytes.
pub open spec fn method_get_all_port_stats() -> Seq<u8> {
    seq![103u8, 101u8, 116u8, 65u8, 108u8, 108u8, 80u8, 111u8, 114u8, 116u8, 83u8, 116u8, 97u8, 116u8, 115u8]
}

/// The method name `getRouteTable`, as its wire bytes.
pub open spec fn method_get_route_table() -> Seq<u8> {
    seq![103u8, 101u8, 116u8, 82u8, 111u8, 117u8, 116u8, 101u8, 84u8, 97u8, 98u8, 108u8, 101u8]
}

/// The method name `syncFib`, as its wire bytes.
pub open spec fn method_sync_fib() -> Seq<u8> {
    seq![115u8, 121u8, 110u8, 99u8, 70u8, 105u8, 98u8]
}

/// The method name `addUnicastRoute`, as its wire bytes.
pub open spec fn method_add_unicast_route() -> Seq<u8> {
    seq![97u8, 100u8, 100u8, 85u8, 110u8, 105u8, 99u8, 97u8, 115u8, 116u8, 82u8, 111u8, 117u8, 116u8, 101u8]
}

/// The method name `deleteUnicastRoute`, as its wire bytes.
pub open spec fn method_delete_unicast_route() -> Seq<u8> {
    seq![
        100u8,
        101u8,
        108u8,
        101u8,
        116u8,
        101u8,
        85u8,
        110u8,
        105u8,
        99u8,
        97u8,
        115u8,
        116u8,
        82u8,
        111u8,
        117u8,
        116u8,
        101u8,
    ]
}

/// A call message whose argument struct is empty: envelope, then the
/// lone `Stop` byte of the struct body.
pub open spec fn enc_empty_args_call(name: Seq<u8>, seq_id: i32) -> Seq<u8> {
    enc_message_begin(name, MessageKind::Call, seq_id) + seq![0u8]
}

/// The wire bytes of a `BinaryAddress` struct: the raw octets at field
/// 1, a zero port at field 2, then `Stop`.
pub open spec fn enc_binary_address(addr: Seq<u8>) -> Seq<u8> {
    enc_field_header(Tag::Binary, 1) + enc_binary(addr) + enc_field_header(Tag::I64, 2) + enc_i64(0)
        + seq![0u8]
}

/// The wire bytes of an `IpPrefix` struct body: the address struct at
/// field 1, the prefix length at field 2, then `Stop`.
pub open spec fn enc_ip_prefix(addr: Seq<u8>, prefix_len: i16) -> Seq<u8> {
    enc_field_header(Tag::Struct, 1) + enc_binary_address(addr) + enc_field_header(Tag::I16, 2)
        + enc_i16(prefix_len) + seq![0u8]
}

/// The argument fields of an add-route call: a client id at field 1,
/// and at field 2 a `UnicastRoute` struct holding the destination
/// prefix at field 1 and a one-element next-hop list at field 2.
pub open spec fn enc_add_route_args(from: Seq<u8>, prefix_len: i16, to: Seq<u8>) -> Seq<u8> {
    enc_field_header(Tag::I16, 1) + enc_i16(1) + enc_field_header(Tag::Struct, 2)
        + enc_field_header(Tag::Struct, 1) + enc_ip_prefix(from, prefix_len) + enc_field_header(
        Tag::List,
        2,
    ) + enc_list_header(Tag::Struct, 1) + enc_binary_address(to) + seq![0u8]
}

/// The argument fields of a delete-route call: a client id at field 1,
/// and the `IpPrefix` struct at field 2.
pub open spec fn enc_delete_route_args(from: Seq<u8>, prefix_len: i16) -> Seq<u8> {
    enc_field_header(Tag::I16, 1) + enc_i16(1) + enc_field_header(Tag::Struct, 2) + enc_ip_prefix(
        from,
        prefix_len,
    )
}

/// The complete add-route call message.
pub open spec fn enc_add_route_call(
    seq_id: i32,
    from: Seq<u8>,
    prefix_len: i16,
    to: Seq<u8>,
) -> Seq<u8> {
    enc_message_begin(method_add_unicast_route(), MessageKind::Call, seq_id) + enc_add_route_args(
        from,
        prefix_len,
        to,
    ) + seq![0u8]
}

/// The complete delete-route call message.
pub open spec fn enc_delete_route_call(seq_id: i32, from: Seq<u8>, prefix_len: i16) -> Seq<u8> {
    enc_message_begin(method_delete_unicast_route(), MessageKind::Call, seq_id)
        + enc_delete_route_args(from, prefix_len) + seq![0u8]
}

/// The method name `getAllPortStats` as a byte vector.
fn name_get_all_port_stats() -> (v: Vec<u8>)
    ensures
        v@ == method_get_all_port_stats(),
{
    let v: Vec<u8> = vec![
        103u8, 101u8, 116u8, 65u8, 108u8, 108u8, 80u8, 111u8, 114u8, 116u8, 83u8, 116u8, 97u8, 116u8, 115u8,
    ];
    proof {
        assert(v@ =~= method_get_all_port_stats());
    }
    v
}

/// The method name `getRouteTable` as a byte vector.
fn name_get_route_table() -> (v: Vec<u8>)
    ensures
        v@ == method_get_route_table(),
{
    let v: Vec<u8> = vec![103u8, 101u8, 116u8, 82u8, 111u8, 117u8, 116u8, 101u8, 84u8, 97u8, 98u8, 108u8,
        101u8];
    proof {
        assert(v@ =~= method_get_route_table());
    }
    v
}

/// The method name `syncFib` as a byte vector.
fn name_sync_fib() -> (v: Vec<u8>)
    ensures
        v@ == method_sync_fib(),
{
    let v: Vec<u8> = vec![115u8, 121u8, 110u8, 99u8, 70u8, 105u8, 98u8];
    proof {
        assert(v@ =~= method_sync_fib());
    }
    v
}

/// The method name `addUnicastRoute` as a byte vector.
fn name_add_unicast_route() -> (v: Vec<u8>)
    ensures
        v@ == method_add_unicast_route(),
{
    let v: Vec<u8> = vec![
        97u8, 100u8, 100u8, 85u8, 110u8, 105u8, 99u8, 97u8, 115u8, 116u8, 82u8, 111u8, 117u8, 116u8, 101u8,
    ];
    proof {
        assert(v@ =~= method_add_unicast_route());
    }
    v
}

/// The method name `deleteUnicastRoute` as a byte vector.
fn name_delete_unicast_route() -> (v: Vec<u8>)
    ensures
        v@ == method_delete_unicast_route(),
{
    let v: Vec<u8> = vec![
        100u8, 101u8, 108u8, 101u8, 116u8, 101u8, 85u8, 110u8, 105u8, 99u8, 97u8, 115u8, 116u8, 82u8, 111u8,
        117u8, 116u8, 101u8,
    ];
    proof {
        assert(v@ =~= method_delete_unicast_route());
    }
    v
}

/// Write a call message with an empty argument struct.
fn write_empty_args_call(w: &mut BinWriter, name: &Vec<u8>, seq_id: i32)
    requires
        name@.len() <= i32::MAX,
    ensures
        final(w)@ == old(w)@ + enc_empty_args_call(name@, seq_id),
{
    w.write_message_begin(name.as_slice(), MessageKind::Call, seq_id);
    w.write_struct_begin();
    w.write_field_stop();
    w.write_struct_end();
    w.write_message_end();
    proof {
        assert(w@ =~= old(w)@ + enc_empty_args_call(name@, seq_id));
    }
}

/// Encode a fetch-all-port-stats request: the `getAllPortStats` call
/// with an empty argument struct.
pub fn encode_ports_stats_request(seq_id: i32) -> (r: Vec<u8>)
    ensures
        r@ == enc_empty_args_call(method_get_all_port_stats(), seq_id),
{
    let mut w = BinWriter::new();
    let name = name_get_all_port_stats();
    write_empty_args_call(&mut w, &name, seq_id);
    w.into_bytes()
}

/// Encode a fetch-route-table request: the `getRouteTable` call with
/// an empty argument struct.
pub fn encode_routes_request(seq_id: i32) -> (r: Vec<u8>)
    ensures
        r@ == enc_empty_args_call(method_get_route_table(), seq_id),
{
    let mut w = BinWriter::new();
    let name = name_get_route_table();
    write_empty_args_call(&mut w, &name, seq_id);
    w.into_bytes()
}

/// Encode a trigger-FIB-sync request: the `syncFib` call with an empty
/// argument struct.
pub fn encode_sync_fib_request(seq_id: i32) -> (r: Vec<u8>)
    ensures
        r@ == enc_empty_args_call(method_sync_fib(), seq_id),
{
    let mut w = BinWriter::new();
    let name = name_sync_fib();
    write_empty_args_call(&mut w, &name, seq_id);
    w.into_bytes()
}

/// Write a `BinaryAddress` struct: raw octets at field 1, a zero port
/// at field 2, then `Stop`.
fn write_binary_address(w: &mut BinWriter, addr: &Ipv4Octets)
    ensures
        final(w)@ == old(w)@ + enc_binary_address(addr.bytes()),
{
    let octets: Vec<u8> = vec![addr.a, addr.b, addr.c, addr.d];
    proof {
        assert(octets@ =~= addr.bytes());
    }
    w.write_struct_begin();
    w.write_field_begin(Tag::Binary, 1);
    w.write_binary(octets.as_slice());
    w.write_field_end();
    w.write_field_begin(Tag::I64, 2);
    w.write_i64(0);
    w.write_field_end();
    w.write_field_stop();
    w.write_struct_end();
    proof {
        assert(w@ =~= old(w)@ + enc_binary_address(addr.bytes()));
    }
}

/// Write an `IpPrefix` struct body: address struct at field 1, prefix
/// length at field 2, then `Stop`.
fn write_ip_prefix(w: &mut BinWriter, addr: &Ipv4Octets, prefix_len: i16)
    ensures
        final(w)@ == old(w)@ + enc_ip_prefix(addr.bytes(), prefix_len),
{
    w.write_field_begin(Tag::Struct, 1);
    write_binary_address(w, addr);
    w.write_field_end();
    w.write_field_begin(Tag::I16, 2);
    w.write_i16(prefix_len);
    w.write_field_end();
    w.write_field_stop();
    proof {
        assert(w@ =~= old(w)@ + enc_ip_prefix(addr.bytes(), prefix_len));
    }
}

/// Encode an add-route request: client id, destination prefix, and a
/// one-element next-hop list, wrapped in the `addUnicastRoute` call.
pub fn encode_add_route_request(
    seq_id: i32,
    from: Ipv4Octets,
    prefix_len: i16,
    to: Ipv4Octets,
) -> (r: Vec<u8>)
    ensures
        r@ == enc_add_route_call(seq_id, from.bytes(), prefix_len, to.bytes()),
{
    let mut w = BinWriter::new();
    let name = name_add_unicast_route();
    w.write_message_begin(name.as_slice(), MessageKind::Call, seq_id);
    w.write_struct_begin();
    w.write_field_begin(Tag::I16, 1);
    w.write_i16(1);
    w.write_field_end();
    w.write_field_begin(Tag::Struct, 2);
    w.write_struct_begin();
    w.write_field_begin(Tag::Struct, 1);
    w.write_struct_begin();
    write_ip_prefix(&mut w, &from, prefix_len);
    w.write_struct_end();
    w.write_field_end();
    w.write_field_begin(Tag::List, 2);
    w.write_list_begin(Tag::Struct, 1);
    write_binary_address(&mut w, &to);
    w.write_list_end();
    w.write_field_end();
    w.write_field_stop();
    w.write_struct_end();
    w.write_field_end();
    w.write_field_stop();
    w.write_struct_end();
    w.write_message_end();
    proof {
        assert(w@ =~= enc_add_route_call(seq_id, from.bytes(), prefix_len, to.bytes()));
    }
    w.into_bytes()
}

/// Encode a delete-route request: client id and the destination
/// prefix, wrapped in the `deleteUnicastRoute` call.
pub fn encode_delete_route_request(seq_id: i32, from: Ipv4Octets, prefix_len: i16) -> (r: Vec<u8>)
    ensures
        r@ == enc_delete_route_call(seq_id, from.bytes(), prefix_len),
{
    let mut w = BinWriter::new();
    let name = name_delete_unicast_route();
    w.write_message_begin(name.as_slice(), MessageKind::Call, seq_id);
    w.write_struct_begin();
    w.write_field_begin(Tag::I16, 1);
    w.write_i16(1);
    w.write_field_end();
    w.write_field_begin(Tag::Struct, 2);
    w.write_struct_begin();
    write_ip_prefix(&mut w, &from, prefix_len);
    w.write_struct_end();
    w.write_field_end();
    w.write_field_stop();
    w.write_struct_end();
    w.write_message_end();
    proof {
        assert(w@ =~= enc_delete_route_call(seq_id, from.bytes(), prefix_len));
    }
    w.into_bytes()
}

/// Whether a well-formed message envelope starts at `pos`.
pub open spec fn env_ok(data: Seq<u8>, pos: int) -> bool {
    &&& bin_ok(data, pos)
    &&& bin_end(data, pos) + 5 <= data.len()
    &&& kind_of_byte(data[bin_end(data, pos)]) is Some
}

/// The kind of the envelope starting at `pos`.
pub open spec fn env_kind(data: Seq<u8>, pos: int) -> MessageKind {
    kind_of_byte(data[bin_end(data, pos)]).unwrap()
}

/// The position just past the envelope starting at `pos`.
pub open spec fn env_end(data: Seq<u8>, pos: int) -> int {
    bin_end(data, pos) + 5
}

/// Decode a response that carries no payload the caller uses: read the
/// envelope and hand the message kind back, so the caller can tell a
/// `Reply` from an `Exception` or any other kind.
pub fn decode_default_response(r: &mut BinReader) -> (res: Result<MessageKind, Error>)
    requires
        old(r).wf(),
    ensures
        final(r).wf(),
        final(r).data() == old(r).data(),
        res is Ok <==> env_ok(old(r).data(), old(r).at()),
        res matches Ok(k) ==> k == env_kind(old(r).data(), old(r).at()) && final(r).at() == env_end(
            old(r).data(),
            old(r).at(),
        ),
        res is Err ==> final(r).at() == old(r).at(),
{
    let (_name, kind, _seq_id) = r.read_message_begin()?;
    r.read_message_end()?;
    Ok(kind)
}

/// Whether one `PortStat` struct body starting at `pos` reports the
/// port as up, starting from `acc`: each operational-state scalar at
/// field id 4 replaces the answer with "equals 1", every other field
/// is passed over. Only meaningful where the struct body is well
/// formed.
pub open spec fn port_connected(data: Seq<u8>, pos: int, acc: bool) -> bool
    decreases data.len() - pos,
{
    if !(0 <= pos && pos + 1 <= data.len()) {
        acc
    } else {
        match tag_of_byte(data[pos]) {
            Some(Tag::Stop) => acc,
            Some(t) => {
                if pos + 3 <= data.len() {
                    let id = crate::codec::dec_i16(data.subrange(pos + 1, pos + 3));
                    if id == 4 && t == Tag::I32 {
                        if pos + 7 <= data.len() {
                            port_connected(
                                data,
                                pos + 7,
                                crate::codec::dec_i32(data.subrange(pos + 3, pos + 7)) == 1,
                            )
                        } else {
                            acc
                        }
                    } else {
                        match skip_end(data, pos + 3, t) {
                            Some(next) => if pos < next <= data.len() {
                                port_connected(data, next, acc)
                            } else {
                                acc
                            },
                            None => acc,
                        }
                    }
                } else {
                    acc
                }
            },
            None => acc,
        }
    }
}

/// The port id and state of `n` consecutive map entries starting at
/// `pos`, each an `i32` key followed by a `PortStat` struct. Only
/// meaningful where the entries are well formed.
pub open spec fn ports_entries_spec(data: Seq<u8>, pos: int, n: int) -> Seq<PortStat>
    decreases data.len() - pos, n,
{
    if n <= 0 || !(0 <= pos && pos + 4 <= data.len()) {
        Seq::empty()
    } else {
        let key = crate::codec::dec_i32(data.subrange(pos, pos + 4));
        let c = port_connected(data, pos + 4, false);
        let entry = seq![(PortStat { id: key, connected: c })];
        match skip_fields_end(data, pos + 4) {
            Some(p2) => if pos < p2 <= data.len() {
                entry + ports_entries_spec(data, p2, n - 1)
            } else {
                entry
            },
            None => entry,
        }
    }
}

/// The port stats the reply struct starting at `pos` decodes to,
/// appended to `acc`: the aggregate map at field id 0 contributes its
/// entries when keyed `i32` to `Struct`, every other field is passed
/// over. Only meaningful where the struct body is well formed.
pub open spec fn ports_reply_stats(data: Seq<u8>, pos: int, acc: Seq<PortStat>) -> Seq<PortStat>
    decreases data.len() - pos,
{
    if !(0 <= pos && pos + 1 <= data.len()) {
        acc
    } else {
        match tag_of_byte(data[pos]) {
            Some(Tag::Stop) => acc,
            Some(t) => {
                if pos + 3 <= data.len() {
                    let id = crate::codec::dec_i16(data.subrange(pos + 1, pos + 3));
                    let acc2 = if id == 0 && t == Tag::TMap && pos + 9 <= data.len()
                        && tag_of_byte(data[pos + 3]) == Some(Tag::I32) && tag_of_byte(
                        data[pos + 4],
                    ) == Some(Tag::Struct) && crate::codec::dec_i32(
                        data.subrange(pos + 5, pos + 9),
                    ) >= 0 {
                        acc + ports_entries_spec(
                            data,
                            pos + 9,
                            crate::codec::dec_i32(data.subrange(pos + 5, pos + 9)) as int,
                        )
                    } else {
                        acc
                    };
                    match skip_end(data, pos + 3, t) {
                        Some(next) => if pos < next <= data.len() {
                            ports_reply_stats(data, next, acc2)
                        } else {
                            acc2
                        },
                        None => acc2,
                    }
                } else {
                    acc
                }
            },
            None => acc,
        }
    }
}

/// Read the fields of one `PortStat` struct, recognizing the
/// operational-state scalar at field id 4 and skipping every other
/// field; consumes exactly one struct body.
fn port_stat_fields(r: &mut BinReader, id: i32, connected: bool) -> (res: Result<PortStat, Error>)
    requires
        old(r).wf(),
    ensures
        final(r).wf(),
        final(r).data() == old(r).data(),
        final(r).at() >= old(r).at(),
        res is Ok ==> final(r).at() > old(r).at(),
        res is Ok <==> skip_fields_end(old(r).data(), old(r).at()) is Some,
        res is Ok ==> Some(final(r).at()) == skip_fields_end(old(r).data(), old(r).at()),
        res matches Ok(p) ==> p.id == id && p.connected == port_connected(
            old(r).data(),
            old(r).at(),
            connected,
        ),
    decreases r.data().len() - r.at(),
{
    proof {
        lemma_skip_fields_unfold(old(r).data(), old(r).at());
        lemma_skip_end_scalars(old(r).data(), old(r).at() + 3);
    }
    let (t, fid) = r.read_field_begin()?;
    if let Tag::Stop = t {
        proof {
            assert(port_connected(old(r).data(), old(r).at(), connected) == connected);
        }
        return Ok(PortStat { id, connected });
    }
    if fid == 4 && t == Tag::I32 {
        let oper_state = r.read_i32()?;
        r.read_field_end()?;
        proof {
            assert(port_connected(old(r).data(), old(r).at(), connected) == port_connected(
                old(r).data(),
                old(r).at() + 7,
                oper_state == 1,
            ));
        }
        port_stat_fields(r, id, oper_state == 1)
    } else {
        r.skip(t)?;
        r.read_field_end()?;
        proof {
            assert(port_connected(old(r).data(), old(r).at(), connected) == port_connected(
                old(r).data(),
                r.at(),
                connected,
            ));
        }
        port_stat_fields(r, id, connected)
    }
}

/// Read one port-stats map entry: the `i32` port id key, then the
/// `PortStat` struct value.
pub fn read_ports_stat_field(r: &mut BinReader) -> (res: Result<PortStat, Error>)
    requires
        old(r).wf(),
    ensures
        final(r).wf(),
        final(r).data() == old(r).data(),
        final(r).at() >= old(r).at(),
        res is Ok ==> final(r).at() > old(r).at() + 4,
        res is Ok <==> old(r).at() + 4 <= old(r).data().len() && skip_fields_end(
            old(r).data(),
            old(r).at() + 4,
        ) is Some,
        res is Ok ==> Some(final(r).at()) == skip_fields_end(old(r).data(), old(r).at() + 4),
        res matches Ok(p) ==> p == (PortStat {
            id: crate::codec::dec_i32(old(r).data().subrange(old(r).at(), old(r).at() + 4)),
            connected: port_connected(old(r).data(), old(r).at() + 4, false),
        }),
{
    let key = r.read_i32()?;
    r.read_struct_begin()?;
    let stat = port_stat_fields(r, key, false)?;
    r.read_struct_end()?;
    Ok(stat)
}

/// Read `count` consecutive port-stats map entries, appending to `acc`.
fn ports_entries(r: &mut BinReader, count: i32, acc: Vec<PortStat>) -> (res: Result<
    Vec<PortStat>,
    Error,
>)
    requires
        old(r).wf(),
        count >= 0,
    ensures
        final(r).wf(),
        final(r).data() == old(r).data(),
        final(r).at() >= old(r).at(),
        res is Ok <==> skip_pairs_end(
            old(r).data(),
            old(r).at(),
            Tag::I32,
            Tag::Struct,
            count as int,
        ) is Some,
        res is Ok ==> Some(final(r).at()) == skip_pairs_end(
            old(r).data(),
            old(r).at(),
            Tag::I32,
            Tag::Struct,
            count as int,
        ),
        res matches Ok(v) ==> v@ == acc@ + ports_entries_spec(
            old(r).data(),
            old(r).at(),
            count as int,
        ),
    decreases count,
{
    proof {
        lemma_skip_pairs_unfold(old(r).data(), old(r).at(), Tag::I32, Tag::Struct, count as int);
        lemma_skip_end_scalars(old(r).data(), old(r).at());
        lemma_skip_end_scalars(old(r).data(), old(r).at() + 4);
    }
    if count == 0 {
        proof {
            assert(ports_entries_spec(old(r).data(), old(r).at(), 0) =~= Seq::<PortStat>::empty());
            assert(acc@ + Seq::<PortStat>::empty() =~= acc@);
        }
        return Ok(acc);
    }
    let stat = read_ports_stat_field(r)?;
    let mut acc = acc;
    let ghost acc0 = acc@;
    let ghost entry = seq![stat];
    acc.push(stat);
    proof {
        assert(ports_entries_spec(old(r).data(), old(r).at(), count as int) == entry
            + ports_entries_spec(old(r).data(), r.at(), count as int - 1));
        assert(acc@ =~= acc0 + entry);
    }
    let res = ports_entries(r, count - 1, acc)?;
    proof {
        assert(res@ =~= acc0 + ports_entries_spec(old(r).data(), old(r).at(), count as int));
    }
    Ok(res)
}

/// Read the fields of the port-stats reply struct: the aggregate map
/// at field id 0, every other field skipped.
fn ports_reply_fields(r: &mut BinReader, acc: Vec<PortStat>) -> (res: Result<Vec<PortStat>, Error>)
    requires
        old(r).wf(),
    ensures
        final(r).wf(),
        final(r).data() == old(r).data(),
        final(r).at() >= old(r).at(),
        res is Ok ==> final(r).at() > old(r).at(),
        res is Ok <==> skip_fields_end(old(r).data(), old(r).at()) is Some,
        res is Ok ==> Some(final(r).at()) == skip_fields_end(old(r).data(), old(r).at()),
        res matches Ok(v) ==> v@ == ports_reply_stats(old(r).data(), old(r).at(), acc@),
    decreases r.data().len() - r.at(),
{
    proof {
        lemma_skip_fields_unfold(old(r).data(), old(r).at());
        lemma_skip_end_scalars(old(r).data(), old(r).at() + 3);
        lemma_skip_end_map_unfold(old(r).data(), old(r).at() + 3);
    }
    let (t, fid) = r.read_field_begin()?;
    if let Tag::Stop = t {
        proof {
            assert(ports_reply_stats(old(r).data(), old(r).at(), acc@) == acc@);
        }
        return Ok(acc);
    }
    if fid == 0 && t == Tag::TMap {
        let ghost acc0 = acc@;
        let (key, value, count) = r.read_map_begin()?;
        let acc2 = if key == Tag::I32 && value == Tag::Struct {
            ports_entries(r, count, acc)?
        } else {
            r.skip_pairs(key, value, count)?;
            acc
        };
        r.read_map_end()?;
        r.read_field_end()?;
        proof {
            assert(ports_reply_stats(old(r).data(), old(r).at(), acc0) == ports_reply_stats(
                old(r).data(),
                r.at(),
                acc2@,
            ));
        }
        ports_reply_fields(r, acc2)
    } else {
        let ghost acc0 = acc@;
        r.skip(t)?;
        r.read_field_end()?;
        proof {
            assert(ports_reply_stats(old(r).data(), old(r).at(), acc0) == ports_reply_stats(
                old(r).data(),
                r.at(),
                acc0,
            ));
        }
        ports_reply_fields(r, acc)
    }
}

/// Decode the reply to a fetch-all-port-stats call. A non-`Reply`
/// envelope yields an empty result rather than an error; a `Reply`
/// envelope is followed by one struct whose field id 0 carries the
/// port-id-to-stats map. Consumes exactly the envelope, and on a
/// `Reply` exactly one struct body after it.
pub fn decode_ports_stats_reply(r: &mut BinReader) -> (res: Result<Vec<PortStat>, Error>)
    requires
        old(r).wf(),
    ensures
        final(r).wf(),
        final(r).data() == old(r).data(),
        res is Ok <==> env_ok(old(r).data(), old(r).at()) && (env_kind(old(r).data(), old(r).at())
            == MessageKind::Reply ==> skip_fields_end(
            old(r).data(),
            env_end(old(r).data(), old(r).at()),
        ) is Some),
        res matches Ok(v) ==> if env_kind(old(r).data(), old(r).at()) == MessageKind::Reply {
            &&& Some(final(r).at()) == skip_fields_end(
                old(r).data(),
                env_end(old(r).data(), old(r).at()),
            )
            &&& v@ == ports_reply_stats(
                old(r).data(),
                env_end(old(r).data(), old(r).at()),
                Seq::empty(),
            )
        } else {
            final(r).at() == env_end(old(r).data(), old(r).at()) && v@.len() == 0
        },
{
    let (_name, kind, _seq_id) = r.read_message_begin()?;
    if kind != MessageKind::Reply {
        return Ok(Vec::new());
    }
    r.read_struct_begin()?;
    let empty: Vec<PortStat> = Vec::new();
    proof {
        assert(empty@ =~= Seq::<PortStat>::empty());
    }
    let result = ports_reply_fields(r, empty)?;
    r.read_struct_end()?;
    r.read_message_end()?;
    Ok(result)
}

/// The placeholder rendering used before any address field is seen.
pub open spec fn undefined_str() -> Seq<char> {
    seq!['u', 'n', 'd', 'e', 'f', 'i', 'n', 'e', 'd']
}

/// The text an address blob renders to: dotted decimal for 4 bytes,
/// colon-separated hextets for 16, the previous rendering otherwise.
pub open spec fn render_address(payload: Seq<u8>, acc: Seq<char>) -> Seq<char> {
    if payload.len() == 4 {
        crate::addr::ipv4_str(payload[0], payload[1], payload[2], payload[3])
    } else if payload.len() == 16 {
        crate::addr::ipv6_str(payload)
    } else {
        acc
    }
}

/// The rendering a `BinaryAddress` struct body starting at `pos`
/// decodes to, starting from `acc`: each address field at id 1
/// replaces the rendering, every other field is passed over. Only
/// meaningful where the struct body is well formed.
pub open spec fn addr_rendering(data: Seq<u8>, pos: int, acc: Seq<char>) -> Seq<char>
    decreases data.len() - pos,
{
    if !(0 <= pos && pos + 1 <= data.len()) {
        acc
    } else {
        match tag_of_byte(data[pos]) {
            Some(Tag::Stop) => acc,
            Some(t) => {
                if pos + 3 <= data.len() {
                    let id = crate::codec::dec_i16(data.subrange(pos + 1, pos + 3));
                    if id == 1 && t == Tag::Binary {
                        if bin_ok(data, pos + 3) {
                            let acc2 = render_address(
                                crate::reader::bin_payload(data, pos + 3),
                                acc,
                            );
                            let next = bin_end(data, pos + 3);
                            if pos < next <= data.len() {
                                addr_rendering(data, next, acc2)
                            } else {
                                acc2
                            }
                        } else {
                            acc
                        }
                    } else {
                        match skip_end(data, pos + 3, t) {
                            Some(next) => if pos < next <= data.len() {
                                addr_rendering(data, next, acc)
                            } else {
                                acc
                            },
                            None => acc,
                        }
                    }
                } else {
                    acc
                }
            },
            None => acc,
        }
    }
}

/// One unfolding of `addr_rendering`, available ahead of the reads
/// that walk the same bytes.
proof fn lemma_addr_rendering_unfold(data: Seq<u8>, pos: int, acc: Seq<char>)
    requires
        0 <= pos,
    ensures
        addr_rendering(data, pos, acc) == (if pos + 1 > data.len() {
            acc
        } else if tag_of_byte(data[pos]) is None {
            acc
        } else if tag_of_byte(data[pos]) == Some(Tag::Stop) {
            acc
        } else if pos + 3 > data.len() {
            acc
        } else if crate::codec::dec_i16(data.subrange(pos + 1, pos + 3)) == 1 && tag_of_byte(
            data[pos],
        ) == Some(Tag::Binary) {
            if bin_ok(data, pos + 3) {
                if pos < bin_end(data, pos + 3) <= data.len() {
                    addr_rendering(
                        data,
                        bin_end(data, pos + 3),
                        render_address(crate::reader::bin_payload(data, pos + 3), acc),
                    )
                } else {
                    render_address(crate::reader::bin_payload(data, pos + 3), acc)
                }
            } else {
                acc
            }
        } else if skip_end(data, pos + 3, tag_of_byte(data[pos]).unwrap()) is None {
            acc
        } else if !(pos < skip_end(data, pos + 3, tag_of_byte(data[pos]).unwrap()).unwrap()
            <= data.len()) {
            acc
        } else {
            addr_rendering(
                data,
                skip_end(data, pos + 3, tag_of_byte(data[pos]).unwrap()).unwrap(),
                acc,
            )
        }),
{
}

/// Read the fields of one `BinaryAddress` struct, rendering the raw
/// octets at field id 1 as dotted decimal (4 bytes) or colon-separated
/// hextets (16 bytes); any other payload length leaves the previous
/// rendering in place, and every other field is skipped.
fn binary_address_fields(r: &mut BinReader, addr: String) -> (res: Result<String, Error>)
    requires
        old(r).wf(),
    ensures
        final(r).wf(),
        final(r).data() == old(r).data(),
        final(r).at() >= old(r).at(),
        res is Ok ==> final(r).at() > old(r).at(),
        res is Ok <==> skip_fields_end(old(r).data(), old(r).at()) is Some,
        res is Ok ==> Some(final(r).at()) == skip_fields_end(old(r).data(), old(r).at()),
        res matches Ok(s) ==> s@ == addr_rendering(old(r).data(), old(r).at(), addr@),
    decreases r.data().len() - r.at(),
{
    proof {
        lemma_skip_fields_unfold(old(r).data(), old(r).at());
        lemma_skip_end_scalars(old(r).data(), old(r).at() + 3);
        lemma_addr_rendering_unfold(old(r).data(), old(r).at(), addr@);
    }
    let (t, fid) = r.read_field_begin()?;
    if let Tag::Stop = t {
        return Ok(addr);
    }
    if fid == 1 && t == Tag::Binary {
        let bytes = r.read_binary()?;
        let rendered = if bytes.len() == 4 {
            format_ipv4(bytes[0], bytes[1], bytes[2], bytes[3])
        } else if bytes.len() == 16 {
            format_ipv6(bytes.as_slice())
        } else {
            addr
        };
        r.read_field_end()?;
        binary_address_fields(r, rendered)
    } else {
        r.skip(t)?;
        r.read_field_end()?;
        binary_address_fields(r, addr)
    }
}

/// Read one `BinaryAddress` struct and render its address octets as
/// text; `undefined` when the struct carries no address field.
pub fn read_binary_address(r: &mut BinReader) -> (res: Result<String, Error>)
    requires
        old(r).wf(),
    ensures
        final(r).wf(),
        final(r).data() == old(r).data(),
        final(r).at() >= old(r).at(),
        res is Ok ==> final(r).at() > old(r).at(),
        res is Ok <==> skip_fields_end(old(r).data(), old(r).at()) is Some,
        res is Ok ==> Some(final(r).at()) == skip_fields_end(old(r).data(), old(r).at()),
        res matches Ok(s) ==> s@ == addr_rendering(old(r).data(), old(r).at(), undefined_str()),
{
    r.read_struct_begin()?;
    let placeholder = String::from_str("undefined");
    proof {
        reveal_strlit("undefined");
        assert(placeholder@ =~= undefined_str());
    }
    let addr = binary_address_fields(r, placeholder)?;
    r.read_struct_end()?;
    Ok(addr)
}

/// The text between the address and the prefix length.
pub open spec fn slash_str() -> Seq<char> {
    seq!['/']
}

/// The rendering and prefix length an `IpPrefix` struct body starting
/// at `pos` decodes to, starting from `addr` and `mask`: the address
/// struct at field id 1 replaces the rendering, the scalar at field id
/// 2 replaces the length, every other field is passed over. Only
/// meaningful where the struct body is well formed.
pub open spec fn prefix_rendering(data: Seq<u8>, pos: int, addr: Seq<char>, mask: i16) -> (
    Seq<char>,
    i16,
)
    decreases data.len() - pos,
{
    if !(0 <= pos && pos + 1 <= data.len()) {
        (addr, mask)
    } else {
        match tag_of_byte(data[pos]) {
            Some(Tag::Stop) => (addr, mask),
            Some(t) => {
                if pos + 3 <= data.len() {
                    let id = crate::codec::dec_i16(data.subrange(pos + 1, pos + 3));
                    if id == 1 && t == Tag::Struct {
                        let addr2 = addr_rendering(data, pos + 3, undefined_str());
                        match skip_fields_end(data, pos + 3) {
                            Some(next) => if pos < next <= data.len() {
                                prefix_rendering(data, next, addr2, mask)
                            } else {
                                (addr2, mask)
                            },
                            None => (addr2, mask),
                        }
                    } else if id == 2 && t == Tag::I16 {
                        if pos + 5 <= data.len() {
                            prefix_rendering(
                                data,
                                pos + 5,
                                addr,
                                crate::codec::dec_i16(data.subrange(pos + 3, pos + 5)),
                            )
                        } else {
                            (addr, mask)
                        }
                    } else {
                        match skip_end(data, pos + 3, t) {
                            Some(next) => if pos < next <= data.len() {
                                prefix_rendering(data, next, addr, mask)
                            } else {
                                (addr, mask)
                            },
                            None => (addr, mask),
                        }
                    }
                } else {
                    (addr, mask)
                }
            },
            None => (addr, mask),
        }
    }
}

/// The `address/length` text an `IpPrefix` struct starting at `pos`
/// decodes to.
pub open spec fn ip_from_spec(data: Seq<u8>, pos: int) -> Seq<char> {
    let pr = prefix_rendering(data, pos, undefined_str(), 0);
    pr.0 + slash_str() + crate::addr::i16_dec_str(pr.1)
}

/// The rendering of the last of `n` next-hop address structs starting
/// at `pos`, or `acc` when there is none.
pub open spec fn hops_rendering(data: Seq<u8>, pos: int, n: int, acc: Seq<char>) -> Seq<char>
    decreases data.len() - pos, n,
{
    if n <= 0 || !(0 <= pos) {
        acc
    } else {
        let s2 = addr_rendering(data, pos, undefined_str());
        match skip_fields_end(data, pos) {
            Some(next) => if pos < next <= data.len() {
                hops_rendering(data, next, n - 1, s2)
            } else {
                s2
            },
            None => s2,
        }
    }
}

/// The next-hop text a list starting at `pos` decodes to: the last
/// element of a struct-typed list, empty text otherwise.
pub open spec fn ip_to_spec(data: Seq<u8>, pos: int) -> Seq<char> {
    if 0 <= pos && pos + 5 <= data.len() {
        match tag_of_byte(data[pos]) {
            Some(elem) => {
                let count = crate::codec::dec_i32(data.subrange(pos + 1, pos + 5));
                if elem == Tag::Struct && count >= 0 {
                    hops_rendering(data, pos + 5, count as int, Seq::empty())
                } else {
                    Seq::empty()
                }
            },
            None => Seq::empty(),
        }
    } else {
        Seq::empty()
    }
}

/// The prefix and next-hop texts a `UnicastRoute` struct body starting
/// at `pos` decodes to, starting from `from` and `to`. Only meaningful
/// where the struct body is well formed.
pub open spec fn route_rendering(data: Seq<u8>, pos: int, from: Seq<char>, to: Seq<char>) -> (
    Seq<char>,
    Seq<char>,
)
    decreases data.len() - pos,
{
    if !(0 <= pos && pos + 1 <= data.len()) {
        (from, to)
    } else {
        match tag_of_byte(data[pos]) {
            Some(Tag::Stop) => (from, to),
            Some(t) => {
                if pos + 3 <= data.len() {
                    let id = crate::codec::dec_i16(data.subrange(pos + 1, pos + 3));
                    let from2 = if id == 1 && t == Tag::Struct {
                        ip_from_spec(data, pos + 3)
                    } else {
                        from
                    };
                    let to2 = if id == 2 && t == Tag::List {
                        ip_to_spec(data, pos + 3)
                    } else {
                        to
                    };
                    match skip_end(data, pos + 3, t) {
                        Some(next) => if pos < next <= data.len() {
                            route_rendering(data, next, from2, to2)
                        } else {
                            (from2, to2)
                        },
                        None => (from2, to2),
                    }
                } else {
                    (from, to)
                }
            },
            None => (from, to),
        }
    }
}

/// One route as its pair of texts.
pub open spec fn route_view(rt: Route) -> (Seq<char>, Seq<char>) {
    (rt.from@, rt.to@)
}

/// A route list as its pairs of texts.
pub open spec fn routes_view(v: Seq<Route>) -> Seq<(Seq<char>, Seq<char>)> {
    v.map_values(|rt: Route| route_view(rt))
}

/// The texts of `n` consecutive route structs starting at `pos`. Only
/// meaningful where they are well formed.
pub open spec fn routes_elems_spec(data: Seq<u8>, pos: int, n: int) -> Seq<(Seq<char>, Seq<char>)>
    decreases data.len() - pos, n,
{
    if n <= 0 || !(0 <= pos) {
        Seq::empty()
    } else {
        let rv = route_rendering(data, pos, undefined_str(), undefined_str());
        match skip_fields_end(data, pos) {
            Some(next) => if pos < next <= data.len() {
                seq![rv] + routes_elems_spec(data, next, n - 1)
            } else {
                seq![rv]
            },
            None => seq![rv],
        }
    }
}

/// The route texts the reply struct starting at `pos` decodes to,
/// appended to `acc`: the aggregate list at field id 0 contributes its
/// elements when struct-typed, every other field is passed over. Only
/// meaningful where the struct body is well formed.
pub open spec fn routes_reply_spec(
    data: Seq<u8>,
    pos: int,
    acc: Seq<(Seq<char>, Seq<char>)>,
) -> Seq<(Seq<char>, Seq<char>)>
    decreases data.len() - pos,
{
    if !(0 <= pos && pos + 1 <= data.len()) {
        acc
    } else {
        match tag_of_byte(data[pos]) {
            Some(Tag::Stop) => acc,
            Some(t) => {
                if pos + 3 <= data.len() {
                    let id = crate::codec::dec_i16(data.subrange(pos + 1, pos + 3));
                    let acc2 = if id == 0 && t == Tag::List && pos + 8 <= data.len()
                        && tag_of_byte(data[pos + 3]) == Some(Tag::Struct)
                        && crate::codec::dec_i32(data.subrange(pos + 4, pos + 8)) >= 0 {
                        acc + routes_elems_spec(
                            data,
                            pos + 8,
                            crate::codec::dec_i32(data.subrange(pos + 4, pos + 8)) as int,
                        )
                    } else {
                        acc
                    };
                    match skip_end(data, pos + 3, t) {
                        Some(next) => if pos < next <= data.len() {
                            routes_reply_spec(data, next, acc2)
                        } else {
                            acc2
                        },
                        None => acc2,
                    }
                } else {
                    acc
                }
            },
            None => acc,
        }
    }
}

/// Read the fields of one `IpPrefix` struct: the address struct at
/// field id 1, the prefix length at field id 2, everything else
/// skipped.
fn ip_prefix_fields(r: &mut BinReader, addr: String, mask: i16) -> (res: Result<
    (String, i16),
    Error,
>)
    requires
        old(r).wf(),
    ensures
        final(r).wf(),
        final(r).data() == old(r).data(),
        final(r).at() >= old(r).at(),
        res is Ok ==> final(r).at() > old(r).at(),
        res is Ok <==> skip_fields_end(old(r).data(), old(r).at()) is Some,
        res is Ok ==> Some(final(r).at()) == skip_fields_end(old(r).data(), old(r).at()),
        res matches Ok(p) ==> p.0@ == prefix_rendering(old(r).data(), old(r).at(), addr@, mask).0
            && p.1 == prefix_rendering(old(r).data(), old(r).at(), addr@, mask).1,
    decreases r.data().len() - r.at(),
{
    proof {
        lemma_skip_fields_unfold(old(r).data(), old(r).at());
        lemma_skip_end_scalars(old(r).data(), old(r).at() + 3);
    }
    let ghost addr0 = addr@;
    let (t, fid) = r.read_field_begin()?;
    if let Tag::Stop = t {
        proof {
            assert(prefix_rendering(old(r).data(), old(r).at(), addr0, mask) == (addr0, mask));
        }
        return Ok((addr, mask));
    }
    if fid == 1 && t == Tag::Struct {
        let rendered = read_binary_address(r)?;
        r.read_field_end()?;
        proof {
            assert(prefix_rendering(old(r).data(), old(r).at(), addr0, mask) == prefix_rendering(
                old(r).data(),
                r.at(),
                rendered@,
                mask,
            ));
        }
        ip_prefix_fields(r, rendered, mask)
    } else if fid == 2 && t == Tag::I16 {
        let m = r.read_i16()?;
        r.read_field_end()?;
        proof {
            assert(prefix_rendering(old(r).data(), old(r).at(), addr0, mask) == prefix_rendering(
                old(r).data(),
                r.at(),
                addr0,
                m,
            ));
        }
        ip_prefix_fields(r, addr, m)
    } else {
        r.skip(t)?;
        r.read_field_end()?;
        proof {
            assert(prefix_rendering(old(r).data(), old(r).at(), addr0, mask) == prefix_rendering(
                old(r).data(),
                r.at(),
                addr0,
                mask,
            ));
        }
        ip_prefix_fields(r, addr, mask)
    }
}

/// Read a route's destination prefix: an `IpPrefix` struct, rendered
/// as `address/length`.
pub fn read_ip_from(r: &mut BinReader) -> (res: Result<String, Error>)
    requires
        old(r).wf(),
    ensures
        final(r).wf(),
        final(r).data() == old(r).data(),
        final(r).at() >= old(r).at(),
        res is Ok ==> final(r).at() > old(r).at(),
        res is Ok <==> skip_fields_end(old(r).data(), old(r).at()) is Some,
        res is Ok ==> Some(final(r).at()) == skip_fields_end(old(r).data(), old(r).at()),
        res matches Ok(s) ==> s@ == ip_from_spec(old(r).data(), old(r).at()),
{
    r.read_struct_begin()?;
    let placeholder = String::from_str("undefined");
    proof {
        reveal_strlit("undefined");
        assert(placeholder@ =~= undefined_str());
    }
    let (addr, mask) = ip_prefix_fields(r, placeholder, 0)?;
    r.read_struct_end()?;
    let mut rendered = addr;
    let slash = {
        proof {
            reveal_strlit("/");
            assert("/"@ =~= slash_str());
        }
        "/"
    };
    rendered.append(slash);
    rendered.append(dec_str_i16(mask).as_str());
    Ok(rendered)
}

/// Read `count` consecutive next-hop address structs, keeping the last
/// rendering: only one next hop is handled.
fn ip_to_elems(r: &mut BinReader, count: i32, acc: String) -> (res: Result<String, Error>)
    requires
        old(r).wf(),
        count >= 0,
    ensures
        final(r).wf(),
        final(r).data() == old(r).data(),
        final(r).at() >= old(r).at(),
        res is Ok <==> skip_many_end(old(r).data(), old(r).at(), Tag::Struct, count as int) is Some,
        res is Ok ==> Some(final(r).at()) == skip_many_end(
            old(r).data(),
            old(r).at(),
            Tag::Struct,
            count as int,
        ),
        res matches Ok(s) ==> s@ == hops_rendering(old(r).data(), old(r).at(), count as int, acc@),
    decreases count,
{
    proof {
        lemma_skip_many_unfold(old(r).data(), old(r).at(), Tag::Struct, count as int);
        lemma_skip_end_scalars(old(r).data(), old(r).at());
    }
    if count == 0 {
        proof {
            assert(hops_rendering(old(r).data(), old(r).at(), 0, acc@) == acc@);
        }
        return Ok(acc);
    }
    let ghost acc0 = acc@;
    let rendered = read_binary_address(r)?;
    proof {
        assert(hops_rendering(old(r).data(), old(r).at(), count as int, acc0) == hops_rendering(
            old(r).data(),
            r.at(),
            count as int - 1,
            rendered@,
        ));
    }
    ip_to_elems(r, count - 1, rendered)
}

/// Read a route's next-hop list: a list of address structs, rendered
/// as text; empty text when the list has no elements of the expected
/// shape.
pub fn read_ip_to(r: &mut BinReader) -> (res: Result<String, Error>)
    requires
        old(r).wf(),
    ensures
        final(r).wf(),
        final(r).data() == old(r).data(),
        final(r).at() >= old(r).at(),
        res is Ok ==> final(r).at() > old(r).at(),
        res is Ok <==> skip_end(old(r).data(), old(r).at(), Tag::List) is Some,
        res is Ok ==> Some(final(r).at()) == skip_end(old(r).data(), old(r).at(), Tag::List),
        res matches Ok(s) ==> s@ == ip_to_spec(old(r).data(), old(r).at()),
{
    proof {
        lemma_skip_end_list_unfold(old(r).data(), old(r).at(), Tag::List);
    }
    let empty = String::from_str("");
    proof {
        reveal_strlit("");
        assert(empty@ =~= Seq::<char>::empty());
    }
    let (elem, count) = r.read_list_begin()?;
    let rendered = if elem == Tag::Struct {
        ip_to_elems(r, count, empty)?
    } else {
        r.skip_many(elem, count)?;
        empty
    };
    r.read_list_end()?;
    Ok(rendered)
}

/// Read the fields of one `UnicastRoute` struct: the destination
/// prefix at field id 1, the next-hop list at field id 2, everything
/// else skipped.
fn route_fields(r: &mut BinReader, from: String, to: String) -> (res: Result<Route, Error>)
    requires
        old(r).wf(),
    ensures
        final(r).wf(),
        final(r).data() == old(r).data(),
        final(r).at() >= old(r).at(),
        res is Ok ==> final(r).at() > old(r).at(),
        res is Ok <==> skip_fields_end(old(r).data(), old(r).at()) is Some,
        res is Ok ==> Some(final(r).at()) == skip_fields_end(old(r).data(), old(r).at()),
        res matches Ok(rt) ==> route_view(rt) == route_rendering(
            old(r).data(),
            old(r).at(),
            from@,
            to@,
        ),
    decreases r.data().len() - r.at(),
{
    proof {
        lemma_skip_fields_unfold(old(r).data(), old(r).at());
        lemma_skip_end_scalars(old(r).data(), old(r).at() + 3);
    }
    let ghost from0 = from@;
    let ghost to0 = to@;
    let (t, fid) = r.read_field_begin()?;
    if let Tag::Stop = t {
        proof {
            assert(route_rendering(old(r).data(), old(r).at(), from0, to0) == (from0, to0));
        }
        return Ok(Route { from, to });
    }
    if fid == 1 && t == Tag::Struct {
        let rendered = read_ip_from(r)?;
        r.read_field_end()?;
        proof {
            assert(route_rendering(old(r).data(), old(r).at(), from0, to0) == route_rendering(
                old(r).data(),
                r.at(),
                rendered@,
                to0,
            ));
        }
        route_fields(r, rendered, to)
    } else if fid == 2 && t == Tag::List {
        let rendered = read_ip_to(r)?;
        r.read_field_end()?;
        proof {
            assert(route_rendering(old(r).data(), old(r).at(), from0, to0) == route_rendering(
                old(r).data(),
                r.at(),
                from0,
                rendered@,
            ));
        }
        route_fields(r, from, rendered)
    } else {
        r.skip(t)?;
        r.read_field_end()?;
        proof {
            assert(route_rendering(old(r).data(), old(r).at(), from0, to0) == route_rendering(
                old(r).data(),
                r.at(),
                from0,
                to0,
            ));
        }
        route_fields(r, from, to)
    }
}

/// Read one `UnicastRoute` struct, rendering prefix and next hop as
/// text.
pub fn read_unicast_route(r: &mut BinReader) -> (res: Result<Route, Error>)
    requires
        old(r).wf(),
    ensures
        final(r).wf(),
        final(r).data() == old(r).data(),
        final(r).at() >= old(r).at(),
        res is Ok ==> final(r).at() > old(r).at(),
        res is Ok <==> skip_fields_end(old(r).data(), old(r).at()) is Some,
        res is Ok ==> Some(final(r).at()) == skip_fields_end(old(r).data(), old(r).at()),
        res matches Ok(rt) ==> route_view(rt) == route_rendering(
            old(r).data(),
            old(r).at(),
            undefined_str(),
            undefined_str(),
        ),
{
    r.read_struct_begin()?;
    let from0 = String::from_str("undefined");
    let to0 = String::from_str("undefined");
    proof {
        reveal_strlit("undefined");
        assert(from0@ =~= undefined_str());
        assert(to0@ =~= undefined_str());
    }
    let route = route_fields(r, from0, to0)?;
    r.read_struct_end()?;
    Ok(route)
}

/// Read `count` consecutive route structs, appending to `acc`.
fn routes_elems(r: &mut BinReader, count: i32, acc: Vec<Route>) -> (res: Result<Vec<Route>, Error>)
    requires
        old(r).wf(),
        count >= 0,
    ensures
        final(r).wf(),
        final(r).data() == old(r).data(),
        final(r).at() >= old(r).at(),
        res is Ok <==> skip_many_end(old(r).data(), old(r).at(), Tag::Struct, count as int) is Some,
        res is Ok ==> Some(final(r).at()) == skip_many_end(
            old(r).data(),
            old(r).at(),
            Tag::Struct,
            count as int,
        ),
        res matches Ok(v) ==> routes_view(v@) == routes_view(acc@) + routes_elems_spec(
            old(r).data(),
            old(r).at(),
            count as int,
        ),
    decreases count,
{
    proof {
        lemma_skip_many_unfold(old(r).data(), old(r).at(), Tag::Struct, count as int);
        lemma_skip_end_scalars(old(r).data(), old(r).at());
    }
    if count == 0 {
        proof {
            assert(routes_elems_spec(old(r).data(), old(r).at(), 0) =~= Seq::<
                (Seq<char>, Seq<char>),
            >::empty());
            assert(routes_view(acc@) + Seq::<(Seq<char>, Seq<char>)>::empty() =~= routes_view(
                acc@,
            ));
        }
        return Ok(acc);
    }
    let route = read_unicast_route(r)?;
    let mut acc = acc;
    let ghost acc0 = acc@;
    let ghost rv = route_view(route);
    acc.push(route);
    proof {
        assert(routes_elems_spec(old(r).data(), old(r).at(), count as int) == seq![rv]
            + routes_elems_spec(old(r).data(), r.at(), count as int - 1));
        assert(routes_view(acc@) =~= routes_view(acc0) + seq![rv]);
    }
    let res = routes_elems(r, count - 1, acc)?;
    proof {
        assert(routes_view(res@) =~= routes_view(acc0) + routes_elems_spec(
            old(r).data(),
            old(r).at(),
            count as int,
        ));
    }
    Ok(res)
}

/// Read the fields of the route-table reply struct: the route list at
/// field id 0, every other field skipped.
fn routes_reply_fields(r: &mut BinReader, acc: Vec<Route>) -> (res: Result<Vec<Route>, Error>)
    requires
        old(r).wf(),
    ensures
        final(r).wf(),
        final(r).data() == old(r).data(),
        final(r).at() >= old(r).at(),
        res is Ok ==> final(r).at() > old(r).at(),
        res is Ok <==> skip_fields_end(old(r).data(), old(r).at()) is Some,
        res is Ok ==> Some(final(r).at()) == skip_fields_end(old(r).data(), old(r).at()),
        res matches Ok(v) ==> routes_view(v@) == routes_reply_spec(
            old(r).data(),
            old(r).at(),
            routes_view(acc@),
        ),
    decreases r.data().len() - r.at(),
{
    proof {
        lemma_skip_fields_unfold(old(r).data(), old(r).at());
        lemma_skip_end_scalars(old(r).data(), old(r).at() + 3);
        lemma_skip_end_list_unfold(old(r).data(), old(r).at() + 3, Tag::List);
    }
    let ghost acc0 = acc@;
    let (t, fid) = r.read_field_begin()?;
    if let Tag::Stop = t {
        proof {
            assert(routes_reply_spec(old(r).data(), old(r).at(), routes_view(acc0))
                == routes_view(acc0));
        }
        return Ok(acc);
    }
    if fid == 0 && t == Tag::List {
        let (elem, count) = r.read_list_begin()?;
        let acc2 = if elem == Tag::Struct {
            routes_elems(r, count, acc)?
        } else {
            r.skip_many(elem, count)?;
            acc
        };
        r.read_list_end()?;
        r.read_field_end()?;
        proof {
            assert(routes_reply_spec(old(r).data(), old(r).at(), routes_view(acc0))
                == routes_reply_spec(old(r).data(), r.at(), routes_view(acc2@)));
        }
        routes_reply_fields(r, acc2)
    } else {
        r.skip(t)?;
        r.read_field_end()?;
        proof {
            assert(routes_reply_spec(old(r).data(), old(r).at(), routes_view(acc0))
                == routes_reply_spec(old(r).data(), r.at(), routes_view(acc0)));
        }
        routes_reply_fields(r, acc)
    }
}

/// Decode the reply to a fetch-route-table call. A non-`Reply`
/// envelope yields an empty result rather than an error; a `Reply`
/// envelope is followed by one struct whose field id 0 carries the
/// route list. Consumes exactly the envelope, and on a `Reply` exactly
/// one struct body after it.
pub fn decode_routes_reply(r: &mut BinReader) -> (res: Result<Vec<Route>, Error>)
    requires
        old(r).wf(),
    ensures
        final(r).wf(),
        final(r).data() == old(r).data(),
        res is Ok <==> env_ok(old(r).data(), old(r).at()) && (env_kind(old(r).data(), old(r).at())
            == MessageKind::Reply ==> skip_fields_end(
            old(r).data(),
            env_end(old(r).data(), old(r).at()),
        ) is Some),
        res matches Ok(v) ==> if env_kind(old(r).data(), old(r).at()) == MessageKind::Reply {
            &&& Some(final(r).at()) == skip_fields_end(
                old(r).data(),
                env_end(old(r).data(), old(r).at()),
            )
            &&& routes_view(v@) == routes_reply_spec(
                old(r).data(),
                env_end(old(r).data(), old(r).at()),
                Seq::empty(),
            )
        } else {
            final(r).at() == env_end(old(r).data(), old(r).at()) && v@.len() == 0
        },
{
    let (_name, kind, _seq_id) = r.read_message_begin()?;
    if kind != MessageKind::Reply {
        return Ok(Vec::new());
    }
    r.read_struct_begin()?;
    let empty: Vec<Route> = Vec::new();
    proof {
        assert(routes_view(empty@) =~= Seq::<(Seq<char>, Seq<char>)>::empty());
    }
    let result = routes_reply_fields(r, empty)?;
    r.read_struct_end()?;
    r.read_message_end()?;
    Ok(result)
}

} // verus!
