use crate::be::{be_parser, be_val};
use crate::errors::DecodeError;
use crate::text::{bytes_to_string, utf8_decode};
use crate::types::{record_view, value_view, Record, RecordModel, Value, ValueModel};
use crate::varint::{lemma_varint_at_bound, varint_at, varint_parser};
use vstd::prelude::*;
use vstd::slice::{slice_subrange, slice_to_vec};

verus! {

/// Width in bytes of one column value under a serial type: types 0 to 9
/// have the fixed widths 0, 1, 2, 3, 4, 6, 8, 8, 0, 0; an even type from 12
/// up is a blob of `(type - 12) / 2` bytes; an odd type from 13 up is text
/// of `(type - 13) / 2` bytes. Types 10 and 11 are reserved and have no
/// width.
pub open spec fn serial_width(t: u64) -> nat {
    if t == 0 {
        0
    } else if t == 1 {
        1
    } else if t == 2 {
        2
    } else if t == 3 {
        3
    } else if t == 4 {
        4
    } else if t == 5 {
        6
    } else if t == 6 {
        8
    } else if t == 7 {
        8
    } else if t == 8 || t == 9 {
        0
    } else if t >= 12 && t % 2 == 0 {
        ((t - 12) / 2) as nat
    } else if t >= 13 {
        ((t - 13) / 2) as nat
    } else {
        0
    }
}

/// The column value a serial type gives to its width-sized byte slice.
/// Integer and float columns are read big-endian; integers are kept as
/// unsigned magnitudes and a float keeps its raw bit pattern. Types 10 and
/// 11 are reserved; text must be valid UTF-8.
pub open spec fn spec_value(t: u64, data: Seq<u8>) -> Result<ValueModel, DecodeError> {
    if t == 0 {
        Ok(ValueModel::Null)
    } else if 1 <= t && t <= 6 {
        Ok(ValueModel::Int(be_val(data) as u64))
    } else if t == 7 {
        Ok(ValueModel::FloatBits(be_val(data) as u64))
    } else if t == 8 {
        Ok(ValueModel::Int(0))
    } else if t == 9 {
        Ok(ValueModel::Int(1))
    } else if t == 10 || t == 11 {
        Err(DecodeError::ReservedSerialType)
    } else if t % 2 == 0 {
        Ok(ValueModel::Blob(data))
    } else {
        match utf8_decode(data) {
            Some(cs) => Ok(ValueModel::Text(cs)),
            None => Err(DecodeError::InvalidText),
        }
    }
}

/// Decodes serial-type varints starting at `pos` until exactly `remaining`
/// bytes are consumed, returning the types and the position after them. A
/// varint that runs past the buffer is `OutOfBounds`; one whose length
/// overshoots the remaining count would drive it negative and is
/// `CorruptRecordHeader`.
pub open spec fn spec_serial_types(s: Seq<u8>, pos: int, remaining: nat) -> Result<
    (Seq<u64>, int),
    DecodeError,
> decreases remaining, via spec_serial_types_decreases {
    if remaining == 0 {
        Ok((Seq::empty(), pos))
    } else {
        match varint_at(s, pos) {
            None => Err(DecodeError::OutOfBounds),
            Some(r) => {
                if r.1 > remaining {
                    Err(DecodeError::CorruptRecordHeader)
                } else {
                    match spec_serial_types(s, pos + r.1, (remaining - r.1) as nat) {
                        Err(e) => Err(e),
                        Ok(rest) => Ok((seq![r.0 as u64].add(rest.0), rest.1)),
                    }
                }
            },
        }
    }
}

#[via_fn]
proof fn spec_serial_types_decreases(s: Seq<u8>, pos: int, remaining: nat) {
    lemma_varint_at_bound(s, pos);
}

/// Decodes one column value per serial type, consuming each type's width
/// from `pos` on, and returns the values and the position after them.
pub open spec fn spec_values(s: Seq<u8>, pos: int, types: Seq<u64>) -> Result<
    (Seq<ValueModel>, int),
    DecodeError,
> decreases types.len() {
    if types.len() == 0 {
        Ok((Seq::empty(), pos))
    } else {
        let t = types[0];
        if t == 10 || t == 11 {
            Err(DecodeError::ReservedSerialType)
        } else {
            let w = serial_width(t) as int;
            if pos + w > s.len() {
                Err(DecodeError::OutOfBounds)
            } else {
                match spec_value(t, s.subrange(pos, pos + w)) {
                    Err(e) => Err(e),
                    Ok(m) => match spec_values(s, pos + w, types.skip(1)) {
                        Err(e) => Err(e),
                        Ok(rest) => Ok((seq![m].add(rest.0), rest.1)),
                    },
                }
            }
        }
    }
}

/// A record decoded from a cell payload: the leading header-size varint
/// (whose declared length includes its own encoded length), one serial type
/// per column until the header region is exhausted, then one value per
/// serial type. A header-size varint longer than the size it declares is
/// `CorruptRecordHeader`.
pub open spec fn spec_record(s: Seq<u8>) -> Result<RecordModel, DecodeError> {
    match varint_at(s, 0) {
        None => Err(DecodeError::OutOfBounds),
        Some(h) => {
            if h.1 > h.0 {
                Err(DecodeError::CorruptRecordHeader)
            } else {
                match spec_serial_types(s, h.1 as int, (h.0 - h.1) as nat) {
                    Err(e) => Err(e),
                    Ok(st) => match spec_values(s, st.1, st.0) {
                        Err(e) => Err(e),
                        Ok(vals) => Ok(
                            RecordModel {
                                header_size: h.0 as u64,
                                serial_types: st.0,
                                values: vals.0,
                            },
                        ),
                    },
                }
            }
        },
    }
}

/// Law: when the serial-type region decodes, the header-size varint's own
/// length plus the lengths of all serial-type varints add up to `remaining`
/// exactly: decoding ends at `pos + remaining` and never over- or
/// under-shoots.
pub proof fn lemma_serial_types_consume_exactly(s: Seq<u8>, pos: int, remaining: nat)
    requires
        spec_serial_types(s, pos, remaining) is Ok,
    ensures
        spec_serial_types(s, pos, remaining)->Ok_0.1 == pos + remaining,
    decreases remaining,
{
    if remaining > 0 {
        lemma_varint_at_bound(s, pos);
        let r = varint_at(s, pos)->Some_0;
        lemma_serial_types_consume_exactly(s, pos + r.1, (remaining - r.1) as nat);
    }
}

/// The sum of the widths of a sequence of serial types.
pub open spec fn sum_widths(types: Seq<u64>) -> nat
    decreases types.len(),
{
    if types.len() == 0 {
        0
    } else {
        (serial_width(types[0]) + sum_widths(types.skip(1))) as nat
    }
}

/// Law: when the value region decodes, each column consumes exactly its
/// serial type's width, so the region ends at `pos` plus the sum of the
/// widths, and yields one value per type.
pub proof fn lemma_values_consume_widths(s: Seq<u8>, pos: int, types: Seq<u64>)
    requires
        spec_values(s, pos, types) is Ok,
    ensures
        spec_values(s, pos, types)->Ok_0.1 == pos + sum_widths(types),
        spec_values(s, pos, types)->Ok_0.0.len() == types.len(),
    decreases types.len(),
{
    if types.len() > 0 {
        let t = types[0];
        let w = serial_width(t) as int;
        lemma_values_consume_widths(s, pos + w, types.skip(1));
    }
}

/// Law: a record that decodes accounts for its header exactly: the value
/// region starts at offset `header_size`, and there is one value per serial
/// type.
pub proof fn lemma_record_header_accounting(s: Seq<u8>)
    requires
        spec_record(s) is Ok,
    ensures
        ({
            let h = varint_at(s, 0)->Some_0;
            let st = spec_serial_types(s, h.1 as int, (h.0 - h.1) as nat)->Ok_0;
            &&& st.1 == h.0
            &&& spec_record(s)->Ok_0.values.len() == st.0.len()
        }),
{
    let h = varint_at(s, 0)->Some_0;
    lemma_serial_types_consume_exactly(s, h.1 as int, (h.0 - h.1) as nat);
    let st = spec_serial_types(s, h.1 as int, (h.0 - h.1) as nat)->Ok_0;
    lemma_values_consume_widths(s, st.1, st.0);
}

/// Prepends already-decoded serial types to the outcome of the rest of the
/// region.
spec fn st_compose(prefix: Seq<u64>, r: Result<(Seq<u64>, int), DecodeError>) -> Result<
    (Seq<u64>, int),
    DecodeError,
> {
    match r {
        Ok(rest) => Ok((prefix + rest.0, rest.1)),
        Err(e) => Err(e),
    }
}

/// Prepends already-decoded values to the outcome of the rest of the region.
spec fn vals_compose(prefix: Seq<ValueModel>, r: Result<(Seq<ValueModel>, int), DecodeError>) -> Result<
    (Seq<ValueModel>, int),
    DecodeError,
> {
    match r {
        Ok(rest) => Ok((prefix + rest.0, rest.1)),
        Err(e) => Err(e),
    }
}

/// Decodes a table-leaf cell payload into its record: header size, serial
/// types, and typed column values.
#[verifier::loop_isolation(false)]
pub fn parse_record(payload: &[u8]) -> (r: Result<Record, DecodeError>)
    ensures
        match r {
            Ok(rec) => spec_record(payload@) == Ok::<RecordModel, DecodeError>(record_view(rec)),
            Err(e) => spec_record(payload@) == Err::<RecordModel, DecodeError>(e),
        },
{
    let ghost s = payload@;
    let plen = payload.len();
    let (header_size, hlen) = match varint_parser(payload, 0) {
        Ok(p) => p,
        Err(e) => {
            return Err(e);
        },
    };
    if hlen as u64 > header_size {
        return Err(DecodeError::CorruptRecordHeader);
    }
    let ghost pos0 = hlen as int;
    let ghost rem0 = (header_size - hlen as u64) as nat;
    let mut serial_types: Vec<u64> = Vec::new();
    let mut cursor: usize = hlen;
    let mut remaining: u64 = header_size - hlen as u64;
    while remaining > 0
        invariant
            s == payload@,
            cursor <= s.len(),
            spec_serial_types(s, pos0, rem0) == st_compose(
                serial_types@,
                spec_serial_types(s, cursor as int, remaining as nat),
            ),
        decreases remaining,
    {
        let ghost oc = cursor as int;
        let ghost orem = remaining as nat;
        let ghost otypes = serial_types@;
        let (st, l) = match varint_parser(payload, cursor) {
            Ok(p) => p,
            Err(e) => {
                return Err(e);
            },
        };
        if l as u64 > remaining {
            return Err(DecodeError::CorruptRecordHeader);
        }
        serial_types.push(st);
        cursor = cursor + l;
        remaining = remaining - l as u64;
        proof {
            let after = spec_serial_types(s, cursor as int, remaining as nat);
            if after is Ok {
                let rest = after->Ok_0;
                assert(otypes + (seq![st] + rest.0) =~= serial_types@ + rest.0);
            }
            assert(st_compose(otypes, spec_serial_types(s, oc, orem)) == st_compose(
                serial_types@,
                after,
            ));
        }
    }
    proof {
        assert(serial_types@ + Seq::<u64>::empty() =~= serial_types@);
    }
    let ghost vpos0 = cursor as int;
    let ghost typs = serial_types@;
    let mut values: Vec<Value> = Vec::new();
    let mut i: usize = 0;
    let n_types = serial_types.len();
    proof {
        assert(typs.skip(0) =~= typs);
        let r0 = spec_values(s, vpos0, typs);
        if r0 is Ok {
            assert(Seq::<ValueModel>::empty() + r0->Ok_0.0 =~= r0->Ok_0.0);
        }
    }
    while i < n_types
        invariant
            s == payload@,
            cursor <= s.len(),
            i <= n_types,
            n_types == typs.len(),
            typs == serial_types@,
            values@.len() == i,
            spec_values(s, vpos0, typs) == vals_compose(
                values@.map_values(|v: Value| value_view(v)),
                spec_values(s, cursor as int, typs.skip(i as int)),
            ),
        decreases n_types - i,
    {
        let ghost oc = cursor as int;
        let ghost omodels = values@.map_values(|v: Value| value_view(v));
        let t = serial_types[i];
        proof {
            assert(typs.skip(i as int)[0] == typs[i as int]);
        }
        if t == 10 || t == 11 {
            return Err(DecodeError::ReservedSerialType);
        }
        let w: u64 = if t == 0 {
            0
        } else if t == 1 {
            1
        } else if t == 2 {
            2
        } else if t == 3 {
            3
        } else if t == 4 {
            4
        } else if t == 5 {
            6
        } else if t == 6 {
            8
        } else if t == 7 {
            8
        } else if t == 8 || t == 9 {
            0
        } else if t % 2 == 0 {
            (t - 12) / 2
        } else {
            (t - 13) / 2
        };
        assert(w == serial_width(t));
        if w > (plen - cursor) as u64 {
            return Err(DecodeError::OutOfBounds);
        }
        let w_us = w as usize;
        let data = slice_subrange(payload, cursor, cursor + w_us);
        let val: Value = if t == 0 {
            Value::Null
        } else if t <= 6 {
            Value::Int(be_parser(data))
        } else if t == 7 {
            Value::FloatBits(be_parser(data))
        } else if t == 8 {
            Value::Int(0)
        } else if t == 9 {
            Value::Int(1)
        } else if t % 2 == 0 {
            Value::Blob(slice_to_vec(data))
        } else {
            match bytes_to_string(slice_to_vec(data)) {
                Some(text) => Value::Text(text),
                None => {
                    return Err(DecodeError::InvalidText);
                },
            }
        };
        assert(spec_value(t, data@) == Ok::<ValueModel, DecodeError>(value_view(val)));
        values.push(val);
        cursor = cursor + w_us;
        i = i + 1;
        proof {
            assert(typs.skip(i - 1).skip(1) =~= typs.skip(i as int));
            assert(values@.map_values(|v: Value| value_view(v)) =~= omodels.push(value_view(val)));
            let after = spec_values(s, cursor as int, typs.skip(i as int));
            if after is Ok {
                let rest = after->Ok_0;
                assert(omodels + (seq![value_view(val)] + rest.0) =~= omodels.push(value_view(val))
                    + rest.0);
            }
            assert(vals_compose(omodels, spec_values(s, oc, typs.skip(i - 1))) == vals_compose(
                values@.map_values(|v: Value| value_view(v)),
                after,
            ));
        }
    }
    proof {
        assert(typs.skip(n_types as int) =~= Seq::<u64>::empty());
        let models = values@.map_values(|v: Value| value_view(v));
        assert(models + Seq::<ValueModel>::empty() =~= models);
    }
    Ok(Record { header_size, serial_types, values })
}

} // verus!
