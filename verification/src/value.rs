//! A spec-level model of one wire value of any type, its encoding, and
//! the central compatibility law: the skip traversal consumes precisely
//! the byte span that writing the value produced — no more, no less —
//! wherever the value stands in a larger stream.

use vstd::prelude::*;

use crate::codec::{
    enc_binary, enc_bool, enc_byte, enc_field_header, enc_i16, enc_i32, enc_i64, enc_list_header,
    enc_map_header, enc_u64,
};
use crate::tag::Tag;

verus! {

/// One wire value, as mathematics: every shape the encoding can carry.
pub enum WireValue {
    VBool(bool),
    VByte(u8),
    VDouble(u64),
    VI16(i16),
    VI32(i32),
    VI64(i64),
    VBinary(Seq<u8>),
    VStruct(Seq<(i16, WireValue)>),
    VList(Tag, Seq<WireValue>),
    VSet(Tag, Seq<WireValue>),
    VMap(Tag, Tag, Seq<(WireValue, WireValue)>),
}

/// The type tag a value is written under.
pub open spec fn value_tag(v: WireValue) -> Tag {
    match v {
        WireValue::VBool(_) => Tag::Bool,
        WireValue::VByte(_) => Tag::Byte,
        WireValue::VDouble(_) => Tag::Double,
        WireValue::VI16(_) => Tag::I16,
        WireValue::VI32(_) => Tag::I32,
        WireValue::VI64(_) => Tag::I64,
        WireValue::VBinary(_) => Tag::Binary,
        WireValue::VStruct(_) => Tag::Struct,
        WireValue::VList(_, _) => Tag::List,
        WireValue::VSet(_, _) => Tag::TSet,
        WireValue::VMap(_, _, _) => Tag::TMap,
    }
}

/// Well-formed: every count fits an `i32`, element and key/value tags
/// match their declared tags, and no tag is the `Stop` or `Void`
/// sentinel.
pub open spec fn wf_value(v: WireValue) -> bool
    decreases v,
{
    match v {
        WireValue::VBool(_) => true,
        WireValue::VByte(_) => true,
        WireValue::VDouble(_) => true,
        WireValue::VI16(_) => true,
        WireValue::VI32(_) => true,
        WireValue::VI64(_) => true,
        WireValue::VBinary(b) => b.len() <= i32::MAX,
        WireValue::VStruct(fields) => forall|i: int|
            0 <= i < fields.len() ==> wf_value(#[trigger] fields[i].1),
        WireValue::VList(t, elems) => {
            &&& elems.len() <= i32::MAX
            &&& forall|i: int|
                0 <= i < elems.len() ==> wf_value(#[trigger] elems[i]) && value_tag(elems[i]) == t
        },
        WireValue::VSet(t, elems) => {
            &&& elems.len() <= i32::MAX
            &&& forall|i: int|
                0 <= i < elems.len() ==> wf_value(#[trigger] elems[i]) && value_tag(elems[i]) == t
        },
        WireValue::VMap(kt, vt, pairs) => {
            &&& pairs.len() <= i32::MAX
            &&& forall|i: int|
                0 <= i < pairs.len() ==> {
                    &&& wf_value(#[trigger] pairs[i].0)
                    &&& wf_value(pairs[i].1)
                    &&& value_tag(pairs[i].0) == kt
                    &&& value_tag(pairs[i].1) == vt
                }
        },
    }
}

/// The wire bytes of one value.
pub open spec fn enc_value(v: WireValue) -> Seq<u8>
    decreases v, 1int,
{
    match v {
        WireValue::VBool(b) => enc_bool(b),
        WireValue::VByte(x) => enc_byte(x),
        WireValue::VDouble(bits) => enc_u64(bits),
        WireValue::VI16(x) => enc_i16(x),
        WireValue::VI32(x) => enc_i32(x),
        WireValue::VI64(x) => enc_i64(x),
        WireValue::VBinary(b) => enc_binary(b),
        WireValue::VStruct(fields) => enc_fields(fields) + seq![0u8],
        WireValue::VList(t, elems) => enc_list_header(t, elems.len() as i32) + enc_elems(elems),
        WireValue::VSet(t, elems) => enc_list_header(t, elems.len() as i32) + enc_elems(elems),
        WireValue::VMap(kt, vt, pairs) => enc_map_header(kt, vt, pairs.len() as i32) + enc_pairs(
            pairs,
        ),
    }
}

/// The wire bytes of a struct's fields, headers included, without the
/// terminating `Stop` byte.
pub open spec fn enc_fields(fields: Seq<(i16, WireValue)>) -> Seq<u8>
    decreases fields, 0int,
{
    if fields.len() == 0 {
        Seq::empty()
    } else {
        enc_field_header(value_tag(fields[0].1), fields[0].0) + enc_value(fields[0].1) + enc_fields(
            fields.drop_first(),
        )
    }
}

/// The wire bytes of consecutive values.
pub open spec fn enc_elems(elems: Seq<WireValue>) -> Seq<u8>
    decreases elems, 0int,
{
    if elems.len() == 0 {
        Seq::empty()
    } else {
        enc_value(elems[0]) + enc_elems(elems.drop_first())
    }
}

/// The wire bytes of consecutive key/value pairs.
pub open spec fn enc_pairs(pairs: Seq<(WireValue, WireValue)>) -> Seq<u8>
    decreases pairs, 0int,
{
    if pairs.len() == 0 {
        Seq::empty()
    } else {
        enc_value(pairs[0].0) + enc_value(pairs[0].1) + enc_pairs(pairs.drop_first())
    }
}

/// Every encoded value takes at least one byte.
pub proof fn lemma_enc_value_min_len(v: WireValue)
    ensures
        enc_value(v).len() >= 1,
{
}

/// When the bytes at `pos` match `e`, any window into them matches the
/// same window into `e`.
proof fn lemma_subrange_of_matching(data: Seq<u8>, pos: int, e: Seq<u8>, a: int, b: int)
    requires
        0 <= pos,
        pos + e.len() <= data.len(),
        data.subrange(pos, pos + e.len()) == e,
        0 <= a <= b <= e.len(),
    ensures
        data.subrange(pos + a, pos + b) == e.subrange(a, b),
{
    assert forall|k: int| 0 <= k < b - a implies data.subrange(pos + a, pos + b)[k] == e.subrange(
        a,
        b,
    )[k] by {
        assert(data.subrange(pos, pos + e.len())[a + k] == data[pos + a + k]);
        assert(data.subrange(pos + a, pos + b)[k] == data[pos + a + k]);
    }
    assert(data.subrange(pos + a, pos + b) =~= e.subrange(a, b));
}

/// A single byte of a matching span equals the corresponding byte of
/// the encoding.
proof fn lemma_byte_of_matching(data: Seq<u8>, pos: int, e: Seq<u8>, a: int)
    requires
        0 <= pos,
        pos + e.len() <= data.len(),
        data.subrange(pos, pos + e.len()) == e,
        0 <= a < e.len(),
    ensures
        data[pos + a] == e[a],
{
    assert(data.subrange(pos, pos + e.len())[a] == data[pos + a]);
}

/// The compatibility law of the skip traversal: wherever the encoding
/// of a well-formed value stands in a stream, skipping its tag from its
/// start consumes exactly its bytes — so a decoder that skips a field
/// it does not understand stays aligned with one that reads it.
pub proof fn lemma_skip_matches_encoding(data: Seq<u8>, pos: int, v: WireValue)
    requires
        wf_value(v),
        0 <= pos,
        pos + enc_value(v).len() <= data.len(),
        data.subrange(pos, pos + enc_value(v).len()) == enc_value(v),
    ensures
        crate::skip::skip_end(data, pos, value_tag(v)) == Some(pos + enc_value(v).len()),
    decreases v, 1int,
{
    let e = enc_value(v);
    crate::skip::lemma_skip_end_scalars(data, pos);
    match v {
        WireValue::VBool(_) => {},
        WireValue::VByte(_) => {},
        WireValue::VDouble(_) => {},
        WireValue::VI16(_) => {},
        WireValue::VI32(_) => {},
        WireValue::VI64(_) => {},
        WireValue::VBinary(b) => {
            let n = b.len() as i32;
            assert(e =~= enc_i32(n) + b);
            lemma_subrange_of_matching(data, pos, e, 0, 4);
            assert(e.subrange(0, 4) =~= enc_i32(n)) by {
                assert forall|k: int| 0 <= k < 4 implies e.subrange(0, 4)[k] == enc_i32(n)[k] by {
                    assert((enc_i32(n) + b)[k] == enc_i32(n)[k]);
                }
            }
            crate::codec::lemma_i32_round_trip(n);
        },
        WireValue::VStruct(fields) => {
            let body = enc_fields(fields);
            let blen = body.len() as int;
            assert(e =~= body + seq![0u8]);
            lemma_subrange_of_matching(data, pos, e, 0, blen);
            assert(e.subrange(0, blen) =~= body) by {
                assert forall|k: int| 0 <= k < blen implies e.subrange(0, blen)[k] == body[k] by {
                    assert((body + seq![0u8])[k] == body[k]);
                }
            }
            lemma_byte_of_matching(data, pos, e, blen);
            assert(e[blen] == 0u8) by {
                assert((body + seq![0u8])[blen] == seq![0u8][0]);
            }
            assert(forall|i: int| 0 <= i < fields.len() ==> wf_value(#[trigger] fields[i].1));
            lemma_skip_fields_matches(data, pos, fields);
        },
        WireValue::VList(t, elems) => {
            assert(elems.len() <= i32::MAX);
            assert(forall|i: int|
                0 <= i < elems.len() ==> wf_value(#[trigger] elems[i]) && value_tag(elems[i])
                    == t);
            lemma_skip_matches_container(data, pos, Tag::List, t, elems);
        },
        WireValue::VSet(t, elems) => {
            assert(elems.len() <= i32::MAX);
            assert(forall|i: int|
                0 <= i < elems.len() ==> wf_value(#[trigger] elems[i]) && value_tag(elems[i])
                    == t);
            lemma_skip_matches_container(data, pos, Tag::TSet, t, elems);
        },
        WireValue::VMap(kt, vt, pairs) => {
            let n = pairs.len() as i32;
            let hdr = enc_map_header(kt, vt, n);
            let body = enc_pairs(pairs);
            assert(e =~= hdr + body);
            lemma_byte_of_matching(data, pos, e, 0);
            lemma_byte_of_matching(data, pos, e, 1);
            assert(e[0] == crate::tag::tag_byte(kt) && e[1] == crate::tag::tag_byte(vt)) by {
                assert((hdr + body)[0] == hdr[0]);
                assert((hdr + body)[1] == hdr[1]);
                assert(hdr[0] == seq![crate::tag::tag_byte(kt), crate::tag::tag_byte(vt)][0]);
                assert(hdr[1] == seq![crate::tag::tag_byte(kt), crate::tag::tag_byte(vt)][1]);
            }
            crate::tag::lemma_tag_byte_round_trip(kt);
            crate::tag::lemma_tag_byte_round_trip(vt);
            lemma_subrange_of_matching(data, pos, e, 2, 6);
            assert(e.subrange(2, 6) =~= enc_i32(n)) by {
                assert forall|k: int| 0 <= k < 4 implies e.subrange(2, 6)[k] == enc_i32(n)[k] by {
                    assert((hdr + body)[2 + k] == hdr[2 + k]);
                    assert((seq![crate::tag::tag_byte(kt), crate::tag::tag_byte(vt)] + enc_i32(
                        n,
                    ))[2 + k] == enc_i32(n)[k]);
                }
            }
            crate::codec::lemma_i32_round_trip(n);
            lemma_subrange_of_matching(data, pos, e, 6, e.len() as int);
            assert(e.subrange(6, e.len() as int) =~= body) by {
                assert forall|k: int| 0 <= k < body.len() implies e.subrange(
                    6,
                    e.len() as int,
                )[k] == body[k] by {
                    assert((hdr + body)[6 + k] == body[k]);
                }
            }
            assert(forall|i: int|
                0 <= i < pairs.len() ==> {
                    &&& wf_value(#[trigger] pairs[i].0)
                    &&& wf_value(pairs[i].1)
                    &&& value_tag(pairs[i].0) == kt
                    &&& value_tag(pairs[i].1) == vt
                });
            lemma_skip_pairs_matches(data, pos + 6, kt, vt, pairs);
            crate::skip::lemma_skip_end_map_unfold(data, pos);
        },
    }
}

/// A list or set value: header then elements, consumed exactly.
proof fn lemma_skip_matches_container(data: Seq<u8>, pos: int, st: Tag, t: Tag, elems: Seq<WireValue>)
    requires
        st == Tag::List || st == Tag::TSet,
        elems.len() <= i32::MAX,
        forall|i: int|
            0 <= i < elems.len() ==> wf_value(#[trigger] elems[i]) && value_tag(elems[i]) == t,
        0 <= pos,
        pos + 5 + enc_elems(elems).len() <= data.len(),
        data.subrange(pos, pos + 5 + enc_elems(elems).len()) == enc_list_header(
            t,
            elems.len() as i32,
        ) + enc_elems(elems),
    ensures
        crate::skip::skip_end(data, pos, st) == Some(pos + 5 + enc_elems(elems).len()),
    decreases elems, 1int,
{
    let n = elems.len() as i32;
    let hdr = enc_list_header(t, n);
    let body = enc_elems(elems);
    let e = hdr + body;
    lemma_byte_of_matching(data, pos, e, 0);
    assert(e[0] == crate::tag::tag_byte(t)) by {
        assert((hdr + body)[0] == hdr[0]);
        assert(hdr[0] == seq![crate::tag::tag_byte(t)][0]);
    }
    crate::tag::lemma_tag_byte_round_trip(t);
    lemma_subrange_of_matching(data, pos, e, 1, 5);
    assert(e.subrange(1, 5) =~= enc_i32(n)) by {
        assert forall|k: int| 0 <= k < 4 implies e.subrange(1, 5)[k] == enc_i32(n)[k] by {
            assert((hdr + body)[1 + k] == hdr[1 + k]);
            assert((seq![crate::tag::tag_byte(t)] + enc_i32(n))[1 + k] == enc_i32(n)[k]);
        }
    }
    crate::codec::lemma_i32_round_trip(n);
    lemma_subrange_of_matching(data, pos, e, 5, e.len() as int);
    assert(e.subrange(5, e.len() as int) =~= body) by {
        assert forall|k: int| 0 <= k < body.len() implies e.subrange(5, e.len() as int)[k]
            == body[k] by {
            assert((hdr + body)[5 + k] == body[k]);
        }
    }
    lemma_skip_elems_matches(data, pos + 5, t, elems);
    crate::skip::lemma_skip_end_list_unfold(data, pos, st);
}

/// Induction step for struct bodies: the fields' encodings followed by
/// the `Stop` byte are consumed exactly.
proof fn lemma_skip_fields_matches(data: Seq<u8>, pos: int, fields: Seq<(i16, WireValue)>)
    requires
        forall|i: int| 0 <= i < fields.len() ==> wf_value(#[trigger] fields[i].1),
        0 <= pos,
        pos + enc_fields(fields).len() + 1 <= data.len(),
        data.subrange(pos, pos + enc_fields(fields).len()) == enc_fields(fields),
        data[pos + enc_fields(fields).len()] == 0u8,
    ensures
        crate::skip::skip_fields_end(data, pos) == Some(pos + enc_fields(fields).len() + 1),
    decreases fields, 0int,
{
    let e = enc_fields(fields);
    crate::skip::lemma_skip_fields_unfold(data, pos);
    if fields.len() == 0 {
        assert(e =~= Seq::<u8>::empty());
    } else {
        let hd = fields[0];
        let t = value_tag(hd.1);
        let hv = enc_value(hd.1);
        let hdr = enc_field_header(t, hd.0);
        let rest = fields.drop_first();
        let re = enc_fields(rest);
        assert(wf_value(hd.1));
        assert(e =~= hdr + hv + re);
        lemma_enc_value_min_len(hd.1);
        lemma_byte_of_matching(data, pos, e, 0);
        assert(e[0] == crate::tag::tag_byte(t)) by {
            assert(((hdr + hv) + re)[0] == (hdr + hv)[0]);
            assert((hdr + hv)[0] == hdr[0]);
            assert(hdr[0] == seq![crate::tag::tag_byte(t)][0]);
        }
        crate::tag::lemma_tag_byte_round_trip(t);
        let hlen = hv.len() as int;
        lemma_subrange_of_matching(data, pos, e, 3, 3 + hlen);
        assert(e.subrange(3, 3 + hlen) =~= hv) by {
            assert forall|k: int| 0 <= k < hlen implies e.subrange(3, 3 + hlen)[k] == hv[k] by {
                assert(((hdr + hv) + re)[3 + k] == (hdr + hv)[3 + k]);
                assert((hdr + hv)[3 + k] == hv[k]);
            }
        }
        lemma_skip_matches_encoding(data, pos + 3, hd.1);
        let p2 = pos + 3 + hlen;
        lemma_subrange_of_matching(data, pos, e, 3 + hlen, e.len() as int);
        assert(e.subrange(3 + hlen, e.len() as int) =~= re) by {
            assert forall|k: int| 0 <= k < re.len() implies e.subrange(
                3 + hlen,
                e.len() as int,
            )[k] == re[k] by {
                assert(((hdr + hv) + re)[3 + hlen + k] == re[k]);
            }
        }
        assert forall|i: int| 0 <= i < rest.len() implies wf_value(#[trigger] rest[i].1) by {
            assert(rest[i] == fields[i + 1]);
            assert(wf_value(fields[i + 1].1));
        }
        lemma_skip_fields_matches(data, p2, rest);
    }
}

/// Induction step for list and set bodies: the encoded elements are
/// consumed exactly, one per count.
proof fn lemma_skip_elems_matches(data: Seq<u8>, pos: int, t: Tag, elems: Seq<WireValue>)
    requires
        forall|i: int|
            0 <= i < elems.len() ==> wf_value(#[trigger] elems[i]) && value_tag(elems[i]) == t,
        0 <= pos,
        pos + enc_elems(elems).len() <= data.len(),
        data.subrange(pos, pos + enc_elems(elems).len()) == enc_elems(elems),
    ensures
        crate::skip::skip_many_end(data, pos, t, elems.len() as int) == Some(
            pos + enc_elems(elems).len(),
        ),
    decreases elems, 0int,
{
    let e = enc_elems(elems);
    crate::skip::lemma_skip_many_unfold(data, pos, t, elems.len() as int);
    if elems.len() == 0 {
        assert(e =~= Seq::<u8>::empty());
    } else {
        let hd = elems[0];
        let hv = enc_value(hd);
        let rest = elems.drop_first();
        let re = enc_elems(rest);
        assert(wf_value(hd) && value_tag(hd) == t);
        assert(e =~= hv + re);
        lemma_enc_value_min_len(hd);
        let hlen = hv.len() as int;
        lemma_subrange_of_matching(data, pos, e, 0, hlen);
        assert(e.subrange(0, hlen) =~= hv) by {
            assert forall|k: int| 0 <= k < hlen implies e.subrange(0, hlen)[k] == hv[k] by {
                assert((hv + re)[k] == hv[k]);
            }
        }
        lemma_skip_matches_encoding(data, pos, hd);
        let p2 = pos + hlen;
        lemma_subrange_of_matching(data, pos, e, hlen, e.len() as int);
        assert(e.subrange(hlen, e.len() as int) =~= re) by {
            assert forall|k: int| 0 <= k < re.len() implies e.subrange(
                hlen,
                e.len() as int,
            )[k] == re[k] by {
                assert((hv + re)[hlen + k] == re[k]);
            }
        }
        assert forall|i: int| 0 <= i < rest.len() implies wf_value(#[trigger] rest[i])
            && value_tag(rest[i]) == t by {
            assert(rest[i] == elems[i + 1]);
            assert(wf_value(elems[i + 1]) && value_tag(elems[i + 1]) == t);
        }
        lemma_skip_elems_matches(data, p2, t, rest);
    }
}

/// Induction step for map bodies: the encoded key/value pairs are
/// consumed exactly, two values per count.
proof fn lemma_skip_pairs_matches(
    data: Seq<u8>,
    pos: int,
    kt: Tag,
    vt: Tag,
    pairs: Seq<(WireValue, WireValue)>,
)
    requires
        forall|i: int|
            0 <= i < pairs.len() ==> {
                &&& wf_value(#[trigger] pairs[i].0)
                &&& wf_value(pairs[i].1)
                &&& value_tag(pairs[i].0) == kt
                &&& value_tag(pairs[i].1) == vt
            },
        0 <= pos,
        pos + enc_pairs(pairs).len() <= data.len(),
        data.subrange(pos, pos + enc_pairs(pairs).len()) == enc_pairs(pairs),
    ensures
        crate::skip::skip_pairs_end(data, pos, kt, vt, pairs.len() as int) == Some(
            pos + enc_pairs(pairs).len(),
        ),
    decreases pairs, 0int,
{
    let e = enc_pairs(pairs);
    crate::skip::lemma_skip_pairs_unfold(data, pos, kt, vt, pairs.len() as int);
    if pairs.len() == 0 {
        assert(e =~= Seq::<u8>::empty());
    } else {
        let hd = pairs[0];
        let kv = enc_value(hd.0);
        let vv = enc_value(hd.1);
        let rest = pairs.drop_first();
        let re = enc_pairs(rest);
        assert(wf_value(hd.0) && value_tag(hd.0) == kt);
        assert(wf_value(hd.1) && value_tag(hd.1) == vt);
        assert(e =~= kv + vv + re);
        lemma_enc_value_min_len(hd.0);
        lemma_enc_value_min_len(hd.1);
        let klen = kv.len() as int;
        let vlen = vv.len() as int;
        lemma_subrange_of_matching(data, pos, e, 0, klen);
        assert(e.subrange(0, klen) =~= kv) by {
            assert forall|k: int| 0 <= k < klen implies e.subrange(0, klen)[k] == kv[k] by {
                assert(((kv + vv) + re)[k] == (kv + vv)[k]);
                assert((kv + vv)[k] == kv[k]);
            }
        }
        lemma_skip_matches_encoding(data, pos, hd.0);
        let p2 = pos + klen;
        lemma_subrange_of_matching(data, pos, e, klen, klen + vlen);
        assert(e.subrange(klen, klen + vlen) =~= vv) by {
            assert forall|k: int| 0 <= k < vlen implies e.subrange(klen, klen + vlen)[k] == vv[k]
                by {
                assert(((kv + vv) + re)[klen + k] == (kv + vv)[klen + k]);
                assert((kv + vv)[klen + k] == vv[k]);
            }
        }
        lemma_skip_matches_encoding(data, p2, hd.1);
        let p3 = p2 + vlen;
        lemma_subrange_of_matching(data, pos, e, klen + vlen, e.len() as int);
        assert(e.subrange(klen + vlen, e.len() as int) =~= re) by {
            assert forall|k: int| 0 <= k < re.len() implies e.subrange(
                klen + vlen,
                e.len() as int,
            )[k] == re[k] by {
                assert(((kv + vv) + re)[klen + vlen + k] == re[k]);
            }
        }
        assert forall|i: int| 0 <= i < rest.len() implies wf_value(#[trigger] rest[i].0)
            && wf_value(rest[i].1) && value_tag(rest[i].0) == kt && value_tag(rest[i].1) == vt by {
            assert(rest[i] == pairs[i + 1]);
            assert(wf_value(pairs[i + 1].0) && wf_value(pairs[i + 1].1));
            assert(value_tag(pairs[i + 1].0) == kt && value_tag(pairs[i + 1].1) == vt);
        }
        lemma_skip_pairs_matches(data, p3, kt, vt, rest);
    }
}

} // verus!
