//! Encoding and decoding of structured values against declared types, in
//! the ledger's canonical binary scheme, with the round-trip theorem.

use vstd::prelude::*;

use crate::codec::{
    compact_bytes, compact_decode, decode_compact, decode_le, encode_compact, encode_le, le_bytes,
    le_val, lemma_compact_round_trip, lemma_le_bytes_len, lemma_le_round_trip, lemma_le_val_bound,
    lemma_pow256_values, pow256,
};
use crate::error::Error;
use crate::types::{has_type, type_model, type_models, value_model, TypeModel, TypeSpec, Value, ValueModel};

verus! {

/// Whether `v` can be written out: every byte sequence in it fits the
/// compact length prefix.
pub open spec fn encodable(v: ValueModel) -> bool
    decreases v, 0int,
{
    match v {
        ValueModel::Bytes(s) => s.len() <= u32::MAX,
        ValueModel::Composite(vs) => encodable_fields(vs),
        _ => true,
    }
}

pub open spec fn encodable_fields(vs: Seq<ValueModel>) -> bool
    decreases vs, vs.len(),
{
    forall|i: int| 0 <= i < vs.len() ==> encodable(#[trigger] vs[i])
}

/// The canonical byte encoding of `v`: little-endian integers, a single
/// byte for booleans, raw bytes for account identifiers, a compact length
/// prefix before byte sequences, and concatenation for composites.
pub open spec fn encoded_value(v: ValueModel) -> Seq<u8>
    decreases v, 0int,
{
    match v {
        ValueModel::Bool(b) => seq![if b { 1u8 } else { 0u8 }],
        ValueModel::U8(x) => le_bytes(x as nat, 1),
        ValueModel::U16(x) => le_bytes(x as nat, 2),
        ValueModel::U32(x) => le_bytes(x as nat, 4),
        ValueModel::U64(x) => le_bytes(x as nat, 8),
        ValueModel::U128(x) => le_bytes(x as nat, 16),
        ValueModel::AccountId(s) => s,
        ValueModel::Bytes(s) => compact_bytes(s.len()) + s,
        ValueModel::Composite(vs) => encoded_fields(vs),
        ValueModel::Unit => Seq::empty(),
    }
}

/// The concatenated encodings of a field list.
pub open spec fn encoded_fields(vs: Seq<ValueModel>) -> Seq<u8>
    decreases vs, vs.len(),
{
    if vs.len() == 0 {
        Seq::empty()
    } else {
        encoded_value(vs[0]) + encoded_fields(vs.subrange(1, vs.len() as int))
    }
}

pub proof fn lemma_encoded_fields_push(vs: Seq<ValueModel>, x: ValueModel)
    ensures
        encoded_fields(vs.push(x)) == encoded_fields(vs) + encoded_value(x),
    decreases vs.len(),
{
    if vs.len() == 0 {
        let p = vs.push(x);
        assert(p[0] == x);
        assert(p.subrange(1, p.len() as int) =~= Seq::<ValueModel>::empty());
        assert(encoded_fields(Seq::<ValueModel>::empty()) == Seq::<u8>::empty());
        assert(encoded_fields(p) == encoded_value(x) + Seq::<u8>::empty());
        assert(encoded_value(x) + Seq::<u8>::empty() =~= encoded_value(x));
        assert(encoded_fields(vs) + encoded_value(x) =~= encoded_value(x));
    } else {
        let tail = vs.subrange(1, vs.len() as int);
        assert(vs.push(x).subrange(1, vs.push(x).len() as int) =~= tail.push(x));
        lemma_encoded_fields_push(tail, x);
        assert(encoded_value(vs[0]) + (encoded_fields(tail) + encoded_value(x)) =~= (
        encoded_value(vs[0]) + encoded_fields(tail)) + encoded_value(x));
    }
}

/// Reads one value of type `t` from the front of `s`: the value and the
/// number of bytes consumed, or `None` when `s` holds no well-formed
/// encoding.
pub open spec fn decode_value_spec(t: TypeModel, s: Seq<u8>) -> Option<(ValueModel, int)>
    decreases t, 0int,
{
    match t {
        TypeModel::Bool => if s.len() >= 1 && (s[0] == 0 || s[0] == 1) {
            Some((ValueModel::Bool(s[0] == 1), 1int))
        } else {
            None
        },
        TypeModel::U8 => if s.len() >= 1 {
            Some((ValueModel::U8(le_val(s.subrange(0, 1)) as u8), 1int))
        } else {
            None
        },
        TypeModel::U16 => if s.len() >= 2 {
            Some((ValueModel::U16(le_val(s.subrange(0, 2)) as u16), 2int))
        } else {
            None
        },
        TypeModel::U32 => if s.len() >= 4 {
            Some((ValueModel::U32(le_val(s.subrange(0, 4)) as u32), 4int))
        } else {
            None
        },
        TypeModel::U64 => if s.len() >= 8 {
            Some((ValueModel::U64(le_val(s.subrange(0, 8)) as u64), 8int))
        } else {
            None
        },
        TypeModel::U128 => if s.len() >= 16 {
            Some((ValueModel::U128(le_val(s.subrange(0, 16)) as u128), 16int))
        } else {
            None
        },
        TypeModel::AccountId => if s.len() >= 32 {
            Some((ValueModel::AccountId(s.subrange(0, 32)), 32int))
        } else {
            None
        },
        TypeModel::Bytes => match compact_decode(s) {
            Some((n, c)) => if n + c <= s.len() {
                Some((ValueModel::Bytes(s.subrange(c, c + n)), c + n))
            } else {
                None
            },
            None => None,
        },
        TypeModel::Composite(ts) => match decode_fields_from(ts, 0, s, 0) {
            Some((vs, end)) => Some((ValueModel::Composite(vs), end)),
            None => None,
        },
    }
}

/// Reads the values of `ts[i..]` from `s`, starting at offset `pos`:
/// the values and the offset after the last one.
pub open spec fn decode_fields_from(ts: Seq<TypeModel>, i: int, s: Seq<u8>, pos: int) -> Option<
    (Seq<ValueModel>, int),
>
    decreases ts, ts.len() - i,
{
    if i < 0 || i > ts.len() || pos < 0 || pos > s.len() {
        None
    } else if i == ts.len() {
        Some((Seq::empty(), pos))
    } else {
        match decode_value_spec(ts[i], s.subrange(pos, s.len() as int)) {
            Some((v, n)) => match decode_fields_from(ts, i + 1, s, pos + n) {
                Some((vs, end)) => Some((seq![v] + vs, end)),
                None => None,
            },
            None => None,
        }
    }
}

/// A decoder never reports more consumed bytes than the buffer holds, and
/// never a negative count.
pub proof fn lemma_decode_consumed_bounds(t: TypeModel, s: Seq<u8>)
    ensures
        decode_value_spec(t, s) matches Some(p) ==> 0 <= p.1 <= s.len(),
    decreases t, 0int,
{
    match t {
        TypeModel::Composite(ts) => {
            lemma_decode_fields_consumed_bounds(ts, 0, s, 0);
        },
        _ => {},
    }
}

pub proof fn lemma_decode_fields_consumed_bounds(ts: Seq<TypeModel>, i: int, s: Seq<u8>, pos: int)
    ensures
        decode_fields_from(ts, i, s, pos) matches Some(p) ==> pos <= p.1 <= s.len() && p.0.len()
            == ts.len() - i,
    decreases ts, ts.len() - i,
{
    if 0 <= i < ts.len() && 0 <= pos <= s.len() {
        let sub = s.subrange(pos, s.len() as int);
        lemma_decode_consumed_bounds(ts[i], sub);
        match decode_value_spec(ts[i], sub) {
            Some((v, n)) => {
                lemma_decode_fields_consumed_bounds(ts, i + 1, s, pos + n);
            },
            None => {},
        }
    }
}

/// The round-trip theorem for one value: whatever follows the encoding of a
/// well-typed value in a buffer, decoding at the declared type recovers the
/// value exactly and consumes exactly its encoding.
pub proof fn lemma_value_round_trip(v: ValueModel, t: TypeModel, rest: Seq<u8>)
    requires
        has_type(v, t),
    ensures
        decode_value_spec(t, encoded_value(v) + rest) == Some(
            (v, encoded_value(v).len() as int),
        ),
    decreases v, 0int,
{
    lemma_pow256_values();
    let s = encoded_value(v) + rest;
    match v {
        ValueModel::Bool(b) => {
            assert(s[0] == (if b { 1u8 } else { 0u8 }));
        },
        ValueModel::U8(x) => {
            lemma_uint_round_trip(x as nat, 1, rest);
        },
        ValueModel::U16(x) => {
            lemma_uint_round_trip(x as nat, 2, rest);
        },
        ValueModel::U32(x) => {
            lemma_uint_round_trip(x as nat, 4, rest);
        },
        ValueModel::U64(x) => {
            lemma_uint_round_trip(x as nat, 8, rest);
        },
        ValueModel::U128(x) => {
            lemma_uint_round_trip(x as nat, 16, rest);
        },
        ValueModel::AccountId(bytes) => {
            assert(s.subrange(0, 32) =~= bytes);
        },
        ValueModel::Bytes(bytes) => {
            let n = bytes.len();
            assert((compact_bytes(n as nat) + bytes) + rest =~= compact_bytes(n as nat) + (
            bytes + rest));
            lemma_compact_round_trip(n as nat, bytes + rest);
            let c = compact_bytes(n as nat).len() as int;
            assert(s.subrange(c, c + n) =~= bytes);
        },
        ValueModel::Composite(vs) => {
            let ts = t->Composite_0;
            assert(vs.subrange(0, vs.len() as int) =~= vs);
            assert(s.subrange(0, s.len() as int) =~= s);
            lemma_fields_round_trip(vs, ts, 0, s, 0, rest);
        },
        ValueModel::Unit => {},
    }
}

proof fn lemma_uint_round_trip(x: nat, width: nat, rest: Seq<u8>)
    requires
        x < pow256(width),
    ensures
        (le_bytes(x, width) + rest).subrange(0, width as int) =~= le_bytes(x, width),
        le_val((le_bytes(x, width) + rest).subrange(0, width as int)) == x,
        le_bytes(x, width).len() == width,
{
    lemma_le_bytes_len(x, width);
    assert((le_bytes(x, width) + rest).subrange(0, width as int) =~= le_bytes(x, width));
    lemma_le_round_trip(x, width);
}

/// The round-trip theorem for a field list, stated from field `i` onward.
pub proof fn lemma_fields_round_trip(
    vs: Seq<ValueModel>,
    ts: Seq<TypeModel>,
    i: int,
    s: Seq<u8>,
    pos: int,
    rest: Seq<u8>,
)
    requires
        vs.len() == ts.len(),
        forall|j: int| 0 <= j < vs.len() ==> has_type(#[trigger] vs[j], ts[j]),
        0 <= i <= vs.len(),
        0 <= pos <= s.len(),
        s.subrange(pos, s.len() as int) == encoded_fields(vs.subrange(i, vs.len() as int))
            + rest,
    ensures
        decode_fields_from(ts, i, s, pos) == Some(
            (
                vs.subrange(i, vs.len() as int),
                pos + encoded_fields(vs.subrange(i, vs.len() as int)).len(),
            ),
        ),
    decreases vs, vs.len() - i,
{
    let suffix = vs.subrange(i, vs.len() as int);
    if i == vs.len() {
        assert(suffix =~= Seq::<ValueModel>::empty());
        assert(encoded_fields(suffix).len() == 0);
    } else {
        let head = vs[i];
        let tailvals = vs.subrange(i + 1, vs.len() as int);
        assert(suffix[0] == head);
        assert(suffix.subrange(1, suffix.len() as int) =~= tailvals);
        assert(encoded_fields(suffix) == encoded_value(head) + encoded_fields(tailvals));
        let enc_head = encoded_value(head);
        let enc_tail = encoded_fields(tailvals);
        assert(s.subrange(pos, s.len() as int) =~= enc_head + (enc_tail + rest)) by {
            assert((enc_head + enc_tail) + rest =~= enc_head + (enc_tail + rest));
        };
        lemma_value_round_trip(head, ts[i], enc_tail + rest);
        let n = enc_head.len() as int;
        assert(decode_value_spec(ts[i], s.subrange(pos, s.len() as int)) == Some((head, n)));
        assert(pos + n <= s.len()) by {
            assert(s.subrange(pos, s.len() as int).len() == enc_head.len() + enc_tail.len()
                + rest.len());
        };
        assert(s.subrange(pos + n, s.len() as int) =~= enc_tail + rest) by {
            let whole = s.subrange(pos, s.len() as int);
            assert forall|k: int| 0 <= k < s.len() - pos - n implies s.subrange(
                pos + n,
                s.len() as int,
            )[k] == (enc_tail + rest)[k] by {
                assert(s[pos + n + k] == whole[n + k]);
            };
        };
        lemma_fields_round_trip(vs, ts, i + 1, s, pos + n, rest);
        assert(seq![head] + tailvals =~= suffix);
    }
}

/// Every well-typed value can be written out.
pub proof fn lemma_has_type_encodable(v: ValueModel, t: TypeModel)
    requires
        has_type(v, t),
    ensures
        encodable(v),
    decreases v, 0int,
{
    match v {
        ValueModel::Composite(vs) => {
            let ts = t->Composite_0;
            assert forall|i: int| 0 <= i < vs.len() implies encodable(#[trigger] vs[i]) by {
                lemma_has_type_encodable(vs[i], ts[i]);
            };
        },
        _ => {},
    }
}

/// Appends the canonical encoding of `v` to `out`.
#[verifier::loop_isolation(false)]
pub fn encode_value(v: &Value, out: &mut Vec<u8>)
    requires
        encodable(v.deep_view()),
    ensures
        final(out)@ == old(out)@ + encoded_value(v.deep_view()),
    decreases v,
{
    proof {
        lemma_pow256_values();
    }
    match v {
        Value::Bool(b) => {
            out.push(if *b { 1u8 } else { 0u8 });
            proof {
                assert(out@ =~= old(out)@ + encoded_value(v.deep_view()));
            }
        },
        Value::U8(x) => {
            encode_le(*x as u128, 1, out);
        },
        Value::U16(x) => {
            encode_le(*x as u128, 2, out);
        },
        Value::U32(x) => {
            encode_le(*x as u128, 4, out);
        },
        Value::U64(x) => {
            encode_le(*x as u128, 8, out);
        },
        Value::U128(x) => {
            encode_le(*x, 16, out);
        },
        Value::AccountId(bytes) => {
            append_bytes(bytes, out);
        },
        Value::Bytes(bytes) => {
            encode_compact(bytes.len() as u32, out);
            append_bytes(bytes, out);
            proof {
                assert(out@ =~= old(out)@ + encoded_value(v.deep_view()));
            }
        },
        Value::Composite(fields) => {
            let ghost vm = value_model(*v)->Composite_0;
            proof {
                assert(vm.len() == fields@.len());
                assert(forall|j: int| 0 <= j < fields@.len() ==> #[trigger] vm[j] == value_model(
                    fields@[j],
                ));
                assert(encodable_fields(vm));
            }
            let mut i: usize = 0;
            while i < fields.len()
                invariant
                    i <= fields@.len(),
                    out@ == old(out)@ + encoded_fields(vm.subrange(0, i as int)),
                decreases fields@.len() - i,
            {
                proof {
                    assert(encodable(vm[i as int]));
                    assert(decreases_to!(*v => *fields));
                    assert(decreases_to!(*fields => fields@));
                    assert(decreases_to!(fields@ => fields@[i as int]));
                }
                encode_value(&fields[i], out);
                proof {
                    let pre = vm.subrange(0, i as int);
                    lemma_encoded_fields_push(pre, vm[i as int]);
                    assert(pre.push(vm[i as int]) =~= vm.subrange(0, i + 1));
                    assert(old(out)@ + encoded_fields(pre) + encoded_value(vm[i as int]) =~= old(
                        out,
                    )@ + (encoded_fields(pre) + encoded_value(vm[i as int])));
                }
                i = i + 1;
            }
            proof {
                assert(vm.subrange(0, vm.len() as int) =~= vm);
            }
        },
        Value::Unit => {
            proof {
                assert(out@ =~= old(out)@ + encoded_value(v.deep_view()));
            }
        },
    }
}

/// Appends a copy of `bytes` to `out`.
pub(crate) fn append_bytes(bytes: &Vec<u8>, out: &mut Vec<u8>)
    ensures
        final(out)@ == old(out)@ + bytes@,
{
    let mut j: usize = 0;
    while j < bytes.len()
        invariant
            j <= bytes@.len(),
            out@ == old(out)@ + bytes@.subrange(0, j as int),
        decreases bytes@.len() - j,
    {
        out.push(bytes[j]);
        proof {
            assert(old(out)@ + bytes@.subrange(0, j as int) + seq![bytes@[j as int]] =~= old(
                out,
            )@ + bytes@.subrange(0, j + 1));
        }
        j = j + 1;
    }
    proof {
        assert(bytes@.subrange(0, bytes@.len() as int) =~= bytes@);
    }
}

/// Reads one value of type `t` from `data` at `pos`; mirrors
/// [`decode_value_spec`] exactly, reporting [`Error::DecodeError`] where the
/// spec decoder reports `None`.
#[verifier::loop_isolation(false)]
#[verifier::rlimit(60)]
pub fn decode_value(t: &TypeSpec, data: &Vec<u8>, pos: usize) -> (r: Result<(Value, usize), Error>)
    requires
        pos <= data@.len(),
    ensures
        match decode_value_spec(t.deep_view(), data@.subrange(pos as int, data@.len() as int)) {
            Some(p) => r matches Ok(q) && q.0.deep_view() == p.0 && q.1 == pos + p.1,
            None => r == Err::<(Value, usize), Error>(Error::DecodeError),
        },
    decreases t,
{
    let ghost s = data@.subrange(pos as int, data@.len() as int);
    proof {
        lemma_pow256_values();
    }
    match t {
        TypeSpec::Bool => {
            if pos < data.len() && (data[pos] == 0 || data[pos] == 1) {
                proof {
                    assert(s[0] == data@[pos as int]);
                }
                Ok((Value::Bool(data[pos] == 1), pos + 1))
            } else {
                proof {
                    if pos < data@.len() {
                        assert(s[0] == data@[pos as int]);
                    }
                }
                Err(Error::DecodeError)
            }
        },
        TypeSpec::U8 => {
            match decode_le(data, pos, 1) {
                Some((x, p)) => {
                    proof {
                        assert(s.subrange(0, 1) =~= data@.subrange(pos as int, pos + 1));
                        lemma_le_val_bound(s.subrange(0, 1));
                    }
                    Ok((Value::U8(x as u8), p))
                },
                None => Err(Error::DecodeError),
            }
        },
        TypeSpec::U16 => {
            match decode_le(data, pos, 2) {
                Some((x, p)) => {
                    proof {
                        assert(s.subrange(0, 2) =~= data@.subrange(pos as int, pos + 2));
                        lemma_le_val_bound(s.subrange(0, 2));
                    }
                    Ok((Value::U16(x as u16), p))
                },
                None => Err(Error::DecodeError),
            }
        },
        TypeSpec::U32 => {
            match decode_le(data, pos, 4) {
                Some((x, p)) => {
                    proof {
                        assert(s.subrange(0, 4) =~= data@.subrange(pos as int, pos + 4));
                        lemma_le_val_bound(s.subrange(0, 4));
                    }
                    Ok((Value::U32(x as u32), p))
                },
                None => Err(Error::DecodeError),
            }
        },
        TypeSpec::U64 => {
            match decode_le(data, pos, 8) {
                Some((x, p)) => {
                    proof {
                        assert(s.subrange(0, 8) =~= data@.subrange(pos as int, pos + 8));
                        lemma_le_val_bound(s.subrange(0, 8));
                    }
                    Ok((Value::U64(x as u64), p))
                },
                None => Err(Error::DecodeError),
            }
        },
        TypeSpec::U128 => {
            match decode_le(data, pos, 16) {
                Some((x, p)) => {
                    proof {
                        assert(s.subrange(0, 16) =~= data@.subrange(pos as int, pos + 16));
                        lemma_le_val_bound(s.subrange(0, 16));
                    }
                    Ok((Value::U128(x), p))
                },
                None => Err(Error::DecodeError),
            }
        },
        TypeSpec::AccountId => {
            if data.len() - pos < 32 {
                return Err(Error::DecodeError);
            }
            let bytes = copy_range(data, pos, 32);
            proof {
                assert(bytes@ =~= s.subrange(0, 32));
            }
            Ok((Value::AccountId(bytes), pos + 32))
        },
        TypeSpec::Bytes => {
            match decode_compact(data, pos) {
                Some((n, p)) => {
                    let n = n as usize;
                    if data.len() - p < n {
                        proof {
                            let cd = compact_decode(s);
                            assert(cd matches Some(q) && q.0 + q.1 > s.len());
                        }
                        return Err(Error::DecodeError);
                    }
                    let bytes = copy_range(data, p, n);
                    proof {
                        let cd = compact_decode(s);
                        let c = cd->Some_0.1;
                        assert(bytes@ =~= s.subrange(c, c + n));
                    }
                    Ok((Value::Bytes(bytes), p + n))
                },
                None => Err(Error::DecodeError),
            }
        },
        TypeSpec::Composite(fields) => {
            let ghost tsm = type_model(*t)->Composite_0;
            proof {
                assert(tsm.len() == fields@.len());
                assert(forall|j: int| 0 <= j < fields@.len() ==> #[trigger] tsm[j] == type_model(
                    fields@[j],
                ));
            }
            let ghost full = decode_fields_from(tsm, 0, s, 0);
            let mut acc: Vec<Value> = Vec::new();
            let ghost mut accm = Seq::<ValueModel>::empty();
            let mut cur: usize = pos;
            let mut i: usize = 0;
            while i < fields.len()
                invariant
                    pos <= cur <= data@.len(),
                    i <= fields@.len(),
                    tsm.len() == fields@.len(),
                    forall|j: int| 0 <= j < fields@.len() ==> #[trigger] tsm[j]
                        == fields@[j].deep_view(),
                    s == data@.subrange(pos as int, data@.len() as int),
                    full == decode_fields_from(tsm, 0, s, 0),
                    acc.deep_view() == accm,
                    accm.len() == i,
                    match decode_fields_from(tsm, i as int, s, cur - pos) {
                        Some(p) => full == Some((accm + p.0, p.1)),
                        None => full is None,
                    },
                decreases fields@.len() - i,
            {
                let ghost pre = decode_fields_from(tsm, i as int, s, cur - pos);
                proof {
                    assert(s.subrange(cur - pos, s.len() as int) =~= data@.subrange(
                        cur as int,
                        data@.len() as int,
                    ));
                }
                proof {
                    assert(decreases_to!(*t => *fields));
                    assert(decreases_to!(*fields => fields@));
                    assert(decreases_to!(fields@ => fields@[i as int]));
                }
                match decode_value(&fields[i], data, cur) {
                    Ok((v, p2)) => {
                        proof {
                            let step = decode_value_spec(
                                tsm[i as int],
                                s.subrange(cur - pos, s.len() as int),
                            );
                            assert(step == Some((v.deep_view(), p2 - cur)));
                            lemma_decode_consumed_bounds(
                                tsm[i as int],
                                s.subrange(cur - pos, s.len() as int),
                            );
                        }
                        let ghost vm = v.deep_view();
                        let ghost accm0 = accm;
                        acc.push(v);
                        proof {
                            assert(acc.deep_view() =~= accm0.push(vm));
                            accm = accm0.push(vm);
                            match decode_fields_from(tsm, i + 1, s, p2 - pos) {
                                Some(p) => {
                                    assert(pre == Some((seq![vm] + p.0, p.1)));
                                    assert(accm0 + (seq![vm] + p.0) =~= accm0.push(vm) + p.0);
                                },
                                None => {},
                            }
                        }
                        cur = p2;
                        i = i + 1;
                    },
                    Err(_) => {
                        proof {
                            assert(full is None);
                        }
                        return Err(Error::DecodeError);
                    },
                }
            }
            proof {
                assert(decode_fields_from(tsm, i as int, s, cur - pos) == Some(
                    (Seq::<ValueModel>::empty(), (cur - pos) as int),
                ));
                assert(accm + Seq::<ValueModel>::empty() =~= accm);
                assert(full == Some((accm, (cur - pos) as int)));
                let res = Value::Composite(acc);
                assert(res.deep_view()->Composite_0 =~= accm);
            }
            Ok((Value::Composite(acc), cur))
        },
    }
}

/// Copies `count` bytes of `data` starting at `start` into a fresh vector.
pub(crate) fn copy_range(data: &Vec<u8>, start: usize, count: usize) -> (r: Vec<u8>)
    requires
        start + count <= data@.len(),
    ensures
        r@ == data@.subrange(start as int, start + count),
{
    let n: usize = data.len();
    let mut out: Vec<u8> = Vec::new();
    let mut j: usize = 0;
    while j < count
        invariant
            j <= count,
            n == data@.len(),
            start + count <= n,
            out@ == data@.subrange(start as int, start + j),
        decreases count - j,
    {
        out.push(data[start + j]);
        proof {
            assert(data@.subrange(start as int, start + j) + seq![data@[start + j]] =~= data@
                .subrange(start as int, start + j + 1));
        }
        j = j + 1;
    }
    out
}

/// Reads the values of all of `fields` from `data`, starting at `pos`;
/// mirrors [`decode_fields_from`] exactly.
#[verifier::loop_isolation(false)]
#[verifier::rlimit(60)]
pub fn decode_fields(fields: &Vec<TypeSpec>, data: &Vec<u8>, pos: usize) -> (r: Result<
    (Vec<Value>, usize),
    Error,
>)
    requires
        pos <= data@.len(),
    ensures
        match decode_fields_from(type_models(fields@), 0, data@, pos as int) {
            Some(p) => r matches Ok(q) && q.0.deep_view() == p.0 && q.1 == p.1,
            None => r == Err::<(Vec<Value>, usize), Error>(Error::DecodeError),
        },
{
    let ghost tsm = type_models(fields@);
    let ghost full = decode_fields_from(tsm, 0, data@, pos as int);
    let mut acc: Vec<Value> = Vec::new();
    let ghost mut accm = Seq::<ValueModel>::empty();
    let mut cur: usize = pos;
    let mut i: usize = 0;
    while i < fields.len()
        invariant
            pos <= cur <= data@.len(),
            i <= fields@.len(),
            acc.deep_view() == accm,
            accm.len() == i,
            match decode_fields_from(tsm, i as int, data@, cur as int) {
                Some(p) => full == Some((accm + p.0, p.1)),
                None => full is None,
            },
        decreases fields@.len() - i,
    {
        let ghost pre = decode_fields_from(tsm, i as int, data@, cur as int);
        proof {
            assert(tsm[i as int] == type_model(fields@[i as int]));
        }
        match decode_value(&fields[i], data, cur) {
            Ok((v, p2)) => {
                proof {
                    let step = decode_value_spec(
                        tsm[i as int],
                        data@.subrange(cur as int, data@.len() as int),
                    );
                    assert(step == Some((v.deep_view(), p2 - cur)));
                    lemma_decode_consumed_bounds(
                        tsm[i as int],
                        data@.subrange(cur as int, data@.len() as int),
                    );
                }
                let ghost vm = v.deep_view();
                let ghost accm0 = accm;
                acc.push(v);
                proof {
                    assert(acc.deep_view() =~= accm0.push(vm));
                    accm = accm0.push(vm);
                    match decode_fields_from(tsm, i + 1, data@, p2 as int) {
                        Some(p) => {
                            assert(pre == Some((seq![vm] + p.0, p.1)));
                            assert(accm0 + (seq![vm] + p.0) =~= accm0.push(vm) + p.0);
                        },
                        None => {},
                    }
                }
                cur = p2;
                i = i + 1;
            },
            Err(_) => {
                proof {
                    assert(full is None);
                }
                return Err(Error::DecodeError);
            },
        }
    }
    proof {
        assert(decode_fields_from(tsm, i as int, data@, cur as int) == Some(
            (Seq::<ValueModel>::empty(), cur as int),
        ));
        assert(accm + Seq::<ValueModel>::empty() =~= accm);
    }
    Ok((acc, cur))
}


} // verus!
