//! The byte codec for field values and records.
//!
//! Every value is encoded with a leading tag byte so that a payload is
//! self-describing: the decoder always knows how many bytes the next value
//! occupies.  Decoding is the exact inverse of encoding, and rejects
//! anything the encoder could not have produced.

use vstd::prelude::*;
use vstd::bytes::{
    spec_u64_from_le_bytes, spec_u64_to_le_bytes, u64_from_le_bytes, u64_to_le_bytes,
};
use vstd::slice::{slice_subrange, slice_to_vec};
use vstd::utf8::{decode_utf8, encode_utf8, valid_utf8};
use crate::value::{spec_models, Value, ValueModel};

verus! {

/// Whether a value fits the wire format: string and byte contents must be
/// addressable by a 64-bit length.
pub open spec fn spec_value_wf(v: ValueModel) -> bool {
    match v {
        ValueModel::Text(s) => encode_utf8(s).len() < 0x10000000000000000,
        ValueModel::Bytes(b) => b.len() < 0x10000000000000000,
        _ => true,
    }
}

/// Whether every value of a record fits the wire format.
pub open spec fn spec_record_wf(vs: Seq<ValueModel>) -> bool {
    forall|i: int| 0 <= i < vs.len() ==> spec_value_wf(#[trigger] vs[i])
}

/// The encoding of one value: a tag byte, then the value's bytes; text and
/// byte strings carry a 64-bit little-endian length first.
pub open spec fn spec_encode_value(v: ValueModel) -> Seq<u8> {
    match v {
        ValueModel::Unit => seq![0u8],
        ValueModel::Bool(b) => seq![
            1u8,
            if b {
                1u8
            } else {
                0u8
            },
        ],
        ValueModel::U64(x) => seq![2u8] + spec_u64_to_le_bytes(x),
        ValueModel::I64(x) => seq![3u8] + spec_u64_to_le_bytes(x as u64),
        ValueModel::Text(s) => seq![4u8] + spec_u64_to_le_bytes(encode_utf8(s).len() as u64)
            + encode_utf8(s),
        ValueModel::Bytes(b) => seq![5u8] + spec_u64_to_le_bytes(b.len() as u64) + b,
    }
}

/// The value at the front of `b`, together with the number of bytes it
/// occupies; `None` when `b` does not begin with a well-formed encoding.
pub open spec fn spec_decode_value(b: Seq<u8>) -> Option<(ValueModel, int)> {
    if b.len() < 1 {
        None
    } else if b[0] == 0 {
        Some((ValueModel::Unit, 1))
    } else if b[0] == 1 {
        if b.len() >= 2 && (b[1] == 0 || b[1] == 1) {
            Some((ValueModel::Bool(b[1] == 1), 2))
        } else {
            None
        }
    } else if b[0] == 2 {
        if b.len() >= 9 {
            Some((ValueModel::U64(spec_u64_from_le_bytes(b.subrange(1, 9))), 9))
        } else {
            None
        }
    } else if b[0] == 3 {
        if b.len() >= 9 {
            Some((ValueModel::I64(spec_u64_from_le_bytes(b.subrange(1, 9)) as i64), 9))
        } else {
            None
        }
    } else if b[0] == 4 {
        if b.len() >= 9 {
            let n = spec_u64_from_le_bytes(b.subrange(1, 9)) as int;
            if 9 + n <= b.len() && valid_utf8(b.subrange(9, 9 + n)) {
                Some((ValueModel::Text(decode_utf8(b.subrange(9, 9 + n))), 9 + n))
            } else {
                None
            }
        } else {
            None
        }
    } else if b[0] == 5 {
        if b.len() >= 9 {
            let n = spec_u64_from_le_bytes(b.subrange(1, 9)) as int;
            if 9 + n <= b.len() {
                Some((ValueModel::Bytes(b.subrange(9, 9 + n)), 9 + n))
            } else {
                None
            }
        } else {
            None
        }
    } else {
        None
    }
}

/// The concatenated encodings of the values of `vs` from index `i` on.
pub open spec fn spec_encode_fields(vs: Seq<ValueModel>, i: int) -> Seq<u8>
    decreases vs.len() - i,
{
    if i < 0 || i >= vs.len() {
        Seq::empty()
    } else {
        spec_encode_value(vs[i]) + spec_encode_fields(vs, i + 1)
    }
}

/// The concatenated encodings of a whole record.
pub open spec fn spec_encode_record(vs: Seq<ValueModel>) -> Seq<u8> {
    spec_encode_fields(vs, 0)
}

/// The `count` values at the front of `b`, with the number of bytes they
/// occupy together; `None` when any of them is malformed.
pub open spec fn spec_decode_record(b: Seq<u8>, count: int) -> Option<(Seq<ValueModel>, int)>
    decreases count,
{
    if count <= 0 {
        Some((Seq::empty(), 0))
    } else {
        match spec_decode_value(b) {
            None => None,
            Some((v, n)) => match spec_decode_record(b.subrange(n, b.len() as int), count - 1) {
                None => None,
                Some((vs, m)) => Some((seq![v] + vs, n + m)),
            },
        }
    }
}

/// Decoding inverts encoding for a single value, whatever follows it.
pub proof fn lemma_value_roundtrip(v: ValueModel, rest: Seq<u8>)
    requires
        spec_value_wf(v),
    ensures
        ({
            let enc = spec_encode_value(v);
            &&& spec_decode_value(enc + rest) == Some((v, enc.len() as int))
            &&& enc.len() >= 1
        }),
{
    vstd::bytes::lemma_auto_spec_u64_to_from_le_bytes();
    let enc = spec_encode_value(v);
    let b = enc + rest;
    match v {
        ValueModel::Unit => {
            assert(b[0] == 0);
        },
        ValueModel::Bool(x) => {
            assert(b[0] == 1);
            assert(b[1] == (if x { 1u8 } else { 0u8 }));
        },
        ValueModel::U64(x) => {
            assert(b[0] == 2);
            assert(b.subrange(1, 9) =~= spec_u64_to_le_bytes(x));
        },
        ValueModel::I64(x) => {
            assert(b[0] == 3);
            assert(b.subrange(1, 9) =~= spec_u64_to_le_bytes(x as u64));
            assert((x as u64) as i64 == x) by (bit_vector);
        },
        ValueModel::Text(s) => {
            broadcast use vstd::utf8::encode_utf8_valid_utf8, vstd::utf8::encode_utf8_decode_utf8;

            let data = encode_utf8(s);
            let n = data.len() as int;
            assert(b[0] == 4);
            assert(b.subrange(1, 9) =~= spec_u64_to_le_bytes(n as u64));
            assert(spec_u64_from_le_bytes(b.subrange(1, 9)) == n as u64);
            assert(b.subrange(9, 9 + n) =~= data);
            assert(valid_utf8(data));
            assert(decode_utf8(data) == s);
        },
        ValueModel::Bytes(data) => {
            let n = data.len() as int;
            assert(b[0] == 5);
            assert(b.subrange(1, 9) =~= spec_u64_to_le_bytes(n as u64));
            assert(spec_u64_from_le_bytes(b.subrange(1, 9)) == n as u64);
            assert(b.subrange(9, 9 + n) =~= data);
        },
    }
}

/// Decoding inverts encoding for the tail of a record from index `i` on,
/// whatever follows it.
pub proof fn lemma_fields_roundtrip(vs: Seq<ValueModel>, i: int, rest: Seq<u8>)
    requires
        0 <= i <= vs.len(),
        spec_record_wf(vs),
    ensures
        ({
            let enc = spec_encode_fields(vs, i);
            spec_decode_record(enc + rest, vs.len() - i) == Some((vs.skip(i), enc.len() as int))
        }),
    decreases vs.len() - i,
{
    let enc = spec_encode_fields(vs, i);
    if i == vs.len() {
        assert(enc + rest =~= rest);
        assert(vs.skip(i) =~= Seq::<ValueModel>::empty());
    } else {
        let head = spec_encode_value(vs[i]);
        let tail = spec_encode_fields(vs, i + 1);
        assert(enc + rest =~= head + (tail + rest));
        lemma_value_roundtrip(vs[i], tail + rest);
        let b = enc + rest;
        assert(spec_decode_value(b) == Some((vs[i], head.len() as int)));
        assert(b.subrange(head.len() as int, b.len() as int) =~= tail + rest);
        lemma_fields_roundtrip(vs, i + 1, rest);
        assert(seq![vs[i]] + vs.skip(i + 1) =~= vs.skip(i));
    }
}

/// Decoding inverts encoding for a whole record, whatever follows it.
pub proof fn lemma_record_roundtrip(vs: Seq<ValueModel>, rest: Seq<u8>)
    requires
        spec_record_wf(vs),
    ensures
        ({
            let enc = spec_encode_record(vs);
            spec_decode_record(enc + rest, vs.len() as int) == Some((vs, enc.len() as int))
        }),
{
    lemma_fields_roundtrip(vs, 0, rest);
    assert(vs.skip(0) =~= vs);
}

/// Relies on `String::from_utf8`: it accepts exactly the valid UTF-8 byte
/// strings, and returns the characters those bytes encode.
#[verifier::external_body]
fn bytes_to_string(data: Vec<u8>) -> (r: Option<String>)
    ensures
        match r {
            Some(s) => valid_utf8(data@) && s@ == decode_utf8(data@),
            None => !valid_utf8(data@),
        },
{
    String::from_utf8(data).ok()
}

/// Append the encoding of one value to `out`.
pub fn encode_value(v: &Value, out: &mut Vec<u8>)
    ensures
        final(out)@ == old(out)@ + spec_encode_value(v@),
        spec_value_wf(v@),
{
    match v {
        Value::Unit => {
            out.push(0u8);
            proof {
                assert(out@ =~= old(out)@ + spec_encode_value(v@));
            }
        },
        Value::Bool(x) => {
            out.push(1u8);
            out.push(if *x { 1u8 } else { 0u8 });
            proof {
                assert(out@ =~= old(out)@ + spec_encode_value(v@));
            }
        },
        Value::U64(x) => {
            out.push(2u8);
            let mut data = u64_to_le_bytes(*x);
            out.append(&mut data);
            proof {
                assert(out@ =~= old(out)@ + spec_encode_value(v@));
            }
        },
        Value::I64(x) => {
            out.push(3u8);
            let mut data = u64_to_le_bytes(*x as u64);
            out.append(&mut data);
            proof {
                assert(out@ =~= old(out)@ + spec_encode_value(v@));
            }
        },
        Value::Text(s) => {
            out.push(4u8);
            let data = s.as_str().as_bytes();
            let mut len_bytes = u64_to_le_bytes(data.len() as u64);
            out.append(&mut len_bytes);
            let mut data_vec = slice_to_vec(data);
            out.append(&mut data_vec);
            proof {
                assert(out@ =~= old(out)@ + spec_encode_value(v@));
            }
        },
        Value::Bytes(bytes) => {
            out.push(5u8);
            let mut len_bytes = u64_to_le_bytes(bytes.len() as u64);
            out.append(&mut len_bytes);
            let mut data_vec = slice_to_vec(bytes.as_slice());
            out.append(&mut data_vec);
            proof {
                assert(out@ =~= old(out)@ + spec_encode_value(v@));
            }
        },
    }
}

/// Append the encodings of all values of `vs` to `out`.
pub fn encode_record(vs: &Vec<Value>, out: &mut Vec<u8>)
    ensures
        final(out)@ == old(out)@ + spec_encode_record(spec_models(vs@)),
        spec_record_wf(spec_models(vs@)),
{
    encode_fields(vs, 0, out);
    proof {
        assert(forall|i: int|
            0 <= i < vs@.len() ==> spec_models(vs@)[i] == #[trigger] vs@[i]@);
    }
}

fn encode_fields(vs: &Vec<Value>, i: usize, out: &mut Vec<u8>)
    requires
        i <= vs@.len(),
    ensures
        final(out)@ == old(out)@ + spec_encode_fields(spec_models(vs@), i as int),
        forall|k: int| i <= k < vs@.len() ==> spec_value_wf(#[trigger] spec_models(vs@)[k]),
    decreases vs@.len() - i,
{
    if i < vs.len() {
        encode_value(&vs[i], out);
        encode_fields(vs, i + 1, out);
        proof {
            assert(spec_models(vs@)[i as int] == vs@[i as int]@);
            assert(out@ =~= old(out)@ + spec_encode_fields(spec_models(vs@), i as int));
        }
    } else {
        proof {
            assert(out@ =~= old(out)@ + spec_encode_fields(spec_models(vs@), i as int));
        }
    }
}

/// Decode the value that starts at `pos`, returning it with the position
/// just past it; `None` exactly when no well-formed value starts there.
pub fn decode_value(b: &Vec<u8>, pos: usize) -> (r: Option<(Value, usize)>)
    requires
        pos <= b@.len(),
    ensures
        match r {
            Some((v, newpos)) => {
                &&& pos < newpos <= b@.len()
                &&& spec_decode_value(b@.subrange(pos as int, b@.len() as int)) == Some(
                    (v@, newpos - pos),
                )
            },
            None => spec_decode_value(b@.subrange(pos as int, b@.len() as int)) is None,
        },
{
    let ghost s = b@.subrange(pos as int, b@.len() as int);
    if pos >= b.len() {
        return None;
    }
    let tag = b[pos];
    proof {
        assert(s[0] == b@[pos as int]);
    }
    if tag == 0 {
        Some((Value::Unit, pos + 1))
    } else if tag == 1 {
        if b.len() - pos >= 2 {
            let x = b[pos + 1];
            proof {
                assert(s[1] == b@[pos + 1]);
            }
            if x == 0 {
                Some((Value::Bool(false), pos + 2))
            } else if x == 1 {
                Some((Value::Bool(true), pos + 2))
            } else {
                None
            }
        } else {
            None
        }
    } else if tag == 2 {
        if b.len() - pos >= 9 {
            let x = u64_from_le_bytes(slice_subrange(b.as_slice(), pos + 1, pos + 9));
            proof {
                assert(b@.subrange(pos + 1, pos + 9) =~= s.subrange(1, 9));
            }
            Some((Value::U64(x), pos + 9))
        } else {
            None
        }
    } else if tag == 3 {
        if b.len() - pos >= 9 {
            let x = u64_from_le_bytes(slice_subrange(b.as_slice(), pos + 1, pos + 9));
            proof {
                assert(b@.subrange(pos + 1, pos + 9) =~= s.subrange(1, 9));
            }
            Some((Value::I64(x as i64), pos + 9))
        } else {
            None
        }
    } else if tag == 4 {
        if b.len() - pos >= 9 {
            let n = u64_from_le_bytes(slice_subrange(b.as_slice(), pos + 1, pos + 9));
            proof {
                assert(b@.subrange(pos + 1, pos + 9) =~= s.subrange(1, 9));
            }
            let remaining = b.len() - pos - 9;
            if n <= remaining as u64 {
                let nn = n as usize;
                let chunk = slice_to_vec(slice_subrange(b.as_slice(), pos + 9, pos + 9 + nn));
                proof {
                    assert(chunk@ =~= s.subrange(9, 9 + n as int));
                }
                match bytes_to_string(chunk) {
                    Some(text) => Some((Value::Text(text), pos + 9 + nn)),
                    None => None,
                }
            } else {
                None
            }
        } else {
            None
        }
    } else if tag == 5 {
        if b.len() - pos >= 9 {
            let n = u64_from_le_bytes(slice_subrange(b.as_slice(), pos + 1, pos + 9));
            proof {
                assert(b@.subrange(pos + 1, pos + 9) =~= s.subrange(1, 9));
            }
            let remaining = b.len() - pos - 9;
            if n <= remaining as u64 {
                let nn = n as usize;
                let chunk = slice_to_vec(slice_subrange(b.as_slice(), pos + 9, pos + 9 + nn));
                proof {
                    assert(chunk@ =~= s.subrange(9, 9 + n as int));
                }
                Some((Value::Bytes(chunk), pos + 9 + nn))
            } else {
                None
            }
        } else {
            None
        }
    } else {
        None
    }
}

/// Decode the `count` values that start at `pos`, returning them with the
/// position just past them; `None` exactly when any of them is malformed.
pub fn decode_record(b: &Vec<u8>, pos: usize, count: usize) -> (r: Option<(Vec<Value>, usize)>)
    requires
        pos <= b@.len(),
    ensures
        match r {
            Some((vs, newpos)) => {
                &&& pos <= newpos <= b@.len()
                &&& vs@.len() == count
                &&& spec_decode_record(b@.subrange(pos as int, b@.len() as int), count as int)
                    == Some((spec_models(vs@), newpos - pos))
            },
            None => spec_decode_record(b@.subrange(pos as int, b@.len() as int), count as int)
                is None,
        },
    decreases count,
{
    let ghost s = b@.subrange(pos as int, b@.len() as int);
    if count == 0 {
        proof {
            assert(spec_models(Seq::<Value>::empty()) =~= Seq::<ValueModel>::empty());
        }
        return Some((Vec::new(), pos));
    }
    match decode_value(b, pos) {
        None => None,
        Some((v, p1)) => {
            proof {
                assert(b@.subrange(p1 as int, b@.len() as int) =~= s.subrange(
                    p1 - pos,
                    s.len() as int,
                ));
            }
            match decode_record(b, p1, count - 1) {
                None => None,
                Some((tail, p2)) => {
                    let ghost tail_models = spec_models(tail@);
                    let mut vs: Vec<Value> = Vec::new();
                    vs.push(v);
                    let mut tail = tail;
                    vs.append(&mut tail);
                    proof {
                        assert(spec_models(vs@) =~= seq![v@] + tail_models);
                    }
                    Some((vs, p2))
                },
            }
        },
    }
}

} // verus!
