//! The flat byte encoding of a store's rows: per record, the key and value
//! as length-prefixed UTF-8, then the two timestamps as sign-and-magnitude
//! little-endian words; records laid end to end.

use vstd::bytes::{
    spec_u64_from_le_bytes, spec_u64_to_le_bytes, u64_from_le_bytes, u64_to_le_bytes,
};
use vstd::prelude::*;
use vstd::slice::slice_subrange;
use vstd::string::StringSliceAdditionalSpecFns;
use vstd::utf8::{decode_utf8, encode_utf8, valid_utf8};

use crate::error::Error;
use crate::model::views_of;
use crate::row::{Row, RowView};

verus! {

/// A timestamp as nine bytes: a sign byte, then the magnitude (a negative
/// offset by one) as a little-endian word.
pub open spec fn i64_bytes(x: int) -> Seq<u8> {
    if x >= 0 {
        seq![0u8] + spec_u64_to_le_bytes(x as u64)
    } else {
        seq![1u8] + spec_u64_to_le_bytes((-x - 1) as u64)
    }
}

/// The timestamp read back from nine bytes, if they carry one.
pub open spec fn i64_of_bytes(bytes: Seq<u8>) -> Option<int> {
    if bytes.len() != 9 {
        None
    } else {
        let mag = spec_u64_from_le_bytes(bytes.subrange(1, 9)) as int;
        if bytes[0] == 0 && mag <= i64::MAX {
            Some(mag)
        } else if bytes[0] == 1 && mag <= i64::MAX {
            Some(-mag - 1)
        } else {
            None
        }
    }
}

/// Decoding a timestamp inverts encoding it.
pub proof fn lemma_i64_bytes_roundtrip(x: int)
    requires
        i64::MIN <= x <= i64::MAX,
    ensures
        i64_bytes(x).len() == 9,
        i64_of_bytes(i64_bytes(x)) == Some(x),
{
    vstd::bytes::lemma_auto_spec_u64_to_from_le_bytes();
    if x >= 0 {
        assert(i64_bytes(x).subrange(1, 9) =~= spec_u64_to_le_bytes(x as u64));
    } else {
        assert(i64_bytes(x).subrange(1, 9) =~= spec_u64_to_le_bytes((-x - 1) as u64));
    }
}

/// One record: length-prefixed key bytes, length-prefixed value bytes, the
/// two timestamps.
pub open spec fn encode_row(rv: RowView) -> Seq<u8> {
    let kb = encode_utf8(rv.key);
    let vb = encode_utf8(rv.value);
    spec_u64_to_le_bytes(kb.len() as u64) + kb + spec_u64_to_le_bytes(vb.len() as u64) + vb
        + i64_bytes(rv.created) + i64_bytes(rv.updated)
}

/// Whether a row image fits the encoding: string lengths within one word,
/// timestamps within one signed word. Every live row satisfies this.
pub open spec fn row_encodable(rv: RowView) -> bool {
    &&& encode_utf8(rv.key).len() <= u64::MAX
    &&& encode_utf8(rv.value).len() <= u64::MAX
    &&& i64::MIN <= rv.created <= i64::MAX
    &&& i64::MIN <= rv.updated <= i64::MAX
}

pub open spec fn rows_encodable(rows: Seq<RowView>) -> bool {
    forall|i: int| 0 <= i < rows.len() ==> row_encodable(#[trigger] rows[i])
}

/// The records of a store, encoded end to end.
pub open spec fn encode_store(rows: Seq<RowView>) -> Seq<u8>
    decreases rows.len(),
{
    if rows.len() == 0 {
        Seq::empty()
    } else {
        encode_row(rows.first()) + encode_store(rows.drop_first())
    }
}

/// Appending a row appends its record.
pub proof fn lemma_encode_store_snoc(rows: Seq<RowView>, r: RowView)
    ensures
        encode_store(rows.push(r)) == encode_store(rows) + encode_row(r),
    decreases rows.len(),
{
    if rows.len() == 0 {
        assert(rows.push(r).drop_first() =~= Seq::<RowView>::empty());
        assert(rows.push(r).first() == r);
        assert(encode_store(rows.push(r)) == encode_row(r) + encode_store(
            Seq::<RowView>::empty(),
        ));
        assert(encode_store(Seq::<RowView>::empty()) =~= Seq::<u8>::empty());
        assert(encode_store(rows.push(r)) =~= encode_store(rows) + encode_row(r));
    } else {
        assert(rows.push(r).drop_first() =~= rows.drop_first().push(r));
        assert(rows.push(r).first() == rows.first());
        lemma_encode_store_snoc(rows.drop_first(), r);
        assert(encode_store(rows.push(r)) =~= encode_store(rows) + encode_row(r));
    }
}

/// The rows read back from a byte image, if it carries a well-formed store.
pub open spec fn decode_store(bytes: Seq<u8>) -> Option<Seq<RowView>>
    decreases bytes.len(),
{
    if bytes.len() == 0 {
        Some(Seq::empty())
    } else if bytes.len() < 8 {
        None
    } else {
        let klen = spec_u64_from_le_bytes(bytes.subrange(0, 8)) as int;
        if 16 + klen > bytes.len() {
            None
        } else {
            let kb = bytes.subrange(8, 8 + klen);
            let vlen = spec_u64_from_le_bytes(bytes.subrange(8 + klen, 16 + klen)) as int;
            if 34 + klen + vlen > bytes.len() {
                None
            } else {
                let vb = bytes.subrange(16 + klen, 16 + klen + vlen);
                let cb = bytes.subrange(16 + klen + vlen, 25 + klen + vlen);
                let ub = bytes.subrange(25 + klen + vlen, 34 + klen + vlen);
                let rest = bytes.subrange(34 + klen + vlen, bytes.len() as int);
                if !valid_utf8(kb) || !valid_utf8(vb) {
                    None
                } else {
                    match (i64_of_bytes(cb), i64_of_bytes(ub)) {
                        (Some(c), Some(u)) => match decode_store(rest) {
                            Some(rows) => Some(
                                seq![
                                    RowView {
                                        key: decode_utf8(kb),
                                        value: decode_utf8(vb),
                                        created: c,
                                        updated: u,
                                    },
                                ] + rows,
                            ),
                            None => None,
                        },
                        _ => None,
                    }
                }
            }
        }
    }
}

/// Decoding inverts encoding: any sequence of encodable rows is read back
/// exactly from its byte image.
pub proof fn lemma_codec_roundtrip(rows: Seq<RowView>)
    requires
        rows_encodable(rows),
    ensures
        decode_store(encode_store(rows)) == Some(rows),
    decreases rows.len(),
{
    if rows.len() == 0 {
    } else {
        let r0 = rows.first();
        assert(row_encodable(rows[0]));
        let kb = encode_utf8(r0.key);
        let vb = encode_utf8(r0.value);
        let klen = kb.len() as int;
        let vlen = vb.len() as int;
        let rest = encode_store(rows.drop_first());
        let bytes = encode_store(rows);
        vstd::bytes::lemma_auto_spec_u64_to_from_le_bytes();
        lemma_i64_bytes_roundtrip(r0.created);
        lemma_i64_bytes_roundtrip(r0.updated);
        vstd::utf8::encode_utf8_valid_utf8(r0.key);
        vstd::utf8::encode_utf8_valid_utf8(r0.value);
        vstd::utf8::encode_utf8_decode_utf8(r0.key);
        vstd::utf8::encode_utf8_decode_utf8(r0.value);
        assert(bytes == encode_row(r0) + rest);
        assert(encode_row(r0).len() == 34 + klen + vlen);
        assert(bytes.subrange(0, 8) =~= spec_u64_to_le_bytes(kb.len() as u64));
        assert(bytes.subrange(8, 8 + klen) =~= kb);
        assert(bytes.subrange(8 + klen, 16 + klen) =~= spec_u64_to_le_bytes(vb.len() as u64));
        assert(bytes.subrange(16 + klen, 16 + klen + vlen) =~= vb);
        assert(bytes.subrange(16 + klen + vlen, 25 + klen + vlen) =~= i64_bytes(r0.created));
        assert(bytes.subrange(25 + klen + vlen, 34 + klen + vlen) =~= i64_bytes(r0.updated));
        assert(bytes.subrange(34 + klen + vlen, bytes.len() as int) =~= rest);
        assert(rows_encodable(rows.drop_first())) by {
            assert forall|i: int| 0 <= i < rows.drop_first().len() implies row_encodable(
                #[trigger] rows.drop_first()[i],
            ) by {
                assert(rows.drop_first()[i] == rows[i + 1]);
                assert(row_encodable(rows[i + 1]));
            }
        }
        lemma_codec_roundtrip(rows.drop_first());
        assert(seq![r0] + rows.drop_first() =~= rows);
    }
}

/// A timestamp as nine bytes, executably.
fn encode_i64(x: i64) -> (r: Vec<u8>)
    ensures
        r@ == i64_bytes(x as int),
{
    let mut out: Vec<u8> = Vec::new();
    if x >= 0 {
        out.push(0u8);
        let mut w = u64_to_le_bytes(x as u64);
        out.append(&mut w);
    } else {
        out.push(1u8);
        let mut w = u64_to_le_bytes((-(x + 1)) as u64);
        out.append(&mut w);
    }
    proof {
        assert(out@ =~= i64_bytes(x as int));
    }
    out
}

/// The timestamp read back from nine bytes, executably.
fn decode_i64_bytes(bytes: &[u8]) -> (r: Option<i64>)
    ensures
        r matches Some(x) ==> i64_of_bytes(bytes@) == Some(x as int),
        r is None ==> i64_of_bytes(bytes@) is None,
{
    if bytes.len() != 9 {
        return None;
    }
    let sign = *vstd::slice::slice_index_get(bytes, 0);
    let mag = u64_from_le_bytes(slice_subrange(bytes, 1, 9));
    if sign == 0 {
        if mag <= i64::MAX as u64 {
            Some(mag as i64)
        } else {
            None
        }
    } else if sign == 1 {
        if mag <= i64::MAX as u64 {
            Some(-(mag as i64) - 1)
        } else {
            None
        }
    } else {
        None
    }
}

/// One record's bytes.
fn encode_row_bytes(row: &Row) -> (r: Vec<u8>)
    ensures
        r@ == encode_row(row@),
        row_encodable(row@),
{
    let mut out: Vec<u8> = Vec::new();
    let mut kb = row.key.as_str().as_bytes_vec();
    let mut klen_bytes = u64_to_le_bytes(kb.len() as u64);
    out.append(&mut klen_bytes);
    out.append(&mut kb);
    let mut vb = row.value.as_str().as_bytes_vec();
    let mut vlen_bytes = u64_to_le_bytes(vb.len() as u64);
    out.append(&mut vlen_bytes);
    out.append(&mut vb);
    let mut cb = encode_i64(row.created);
    out.append(&mut cb);
    let mut ub = encode_i64(row.updated);
    out.append(&mut ub);
    proof {
        assert(out@ =~= encode_row(row@));
    }
    out
}

/// The byte image of a whole table of rows, in the table's order.
pub(crate) fn encode_rows(rows: &Vec<Row>) -> (r: Vec<u8>)
    ensures
        r@ == encode_store(views_of(rows@)),
        rows_encodable(views_of(rows@)),
{
    let ghost vs = views_of(rows@);
    let n = rows.len();
    let mut out: Vec<u8> = Vec::new();
    let mut i: usize = 0;
    while i < n
        invariant
            0 <= i <= n,
            n == rows@.len(),
            vs == views_of(rows@),
            out@ == encode_store(vs.subrange(0, i as int)),
            forall|j: int| 0 <= j < i ==> row_encodable(#[trigger] vs[j]),
        decreases n - i,
    {
        let mut rb = encode_row_bytes(&rows[i]);
        out.append(&mut rb);
        proof {
            lemma_encode_store_snoc(vs.subrange(0, i as int), vs[i as int]);
            assert(vs.subrange(0, i + 1) =~= vs.subrange(0, i as int).push(vs[i as int]));
        }
        i += 1;
    }
    proof {
        assert(vs.subrange(0, n as int) =~= vs);
    }
    out
}

/// A deserialization failure over a malformed byte image.
fn deser_error() -> (r: Error)
    ensures
        r is DeserializationFailure,
{
    Error::DeserializationFailure("malformed store encoding".to_owned())
}

/// Relies on `str::from_utf8`: it returns `Ok` exactly on well-formed UTF-8,
/// decoding the bytes to their characters.
#[verifier::external_body]
fn bytes_to_string(bytes: &[u8]) -> (r: Option<String>)
    ensures
        r is Some <==> valid_utf8(bytes@),
        r matches Some(s) ==> s@ == decode_utf8(bytes@),
{
    match std::str::from_utf8(bytes) {
        Ok(s) => Some(s.to_string()),
        Err(_) => None,
    }
}

/// A parsed prefix glued onto the outcome for the remaining bytes.
spec fn glue(prefix: Seq<RowView>, rest: Option<Seq<RowView>>) -> Option<Seq<RowView>> {
    match rest {
        Some(rows) => Some(prefix + rows),
        None => None,
    }
}

/// The rows read back from a byte image, executably; the order of the
/// records is kept.
pub(crate) fn decode_rows(bytes: &[u8]) -> (r: Result<Vec<Row>, Error>)
    ensures
        decode_store(bytes@) is None ==> ({
            &&& r matches Err(e)
            &&& e is DeserializationFailure
        }),
        decode_store(bytes@) matches Some(rows) ==> ({
            &&& r matches Ok(v)
            &&& views_of(v@) == rows
        }),
{
    let n = bytes.len();
    let mut out: Vec<Row> = Vec::new();
    let mut off: usize = 0;
    proof {
        assert(bytes@.subrange(0, n as int) =~= bytes@);
        assert(views_of(out@) =~= Seq::<RowView>::empty());
        match decode_store(bytes@) {
            Some(rows) => {
                assert(Seq::<RowView>::empty() + rows =~= rows);
            },
            None => {},
        }
    }
    while off < n
        invariant
            0 <= off <= n,
            n == bytes@.len(),
            glue(views_of(out@), decode_store(bytes@.subrange(off as int, n as int)))
                == decode_store(bytes@),
        decreases n - off,
    {
        let ghost tail = bytes@.subrange(off as int, n as int);
        let ghost parsed = views_of(out@);
        let rem = n - off;
        if rem < 8 {
            return Err(deser_error());
        }
        let klen64 = u64_from_le_bytes(slice_subrange(bytes, off, off + 8));
        proof {
            assert(bytes@.subrange(off as int, off as int + 8) =~= tail.subrange(0, 8));
        }
        if klen64 > (rem as u64) || (rem as u64) - klen64 < 16 {
            proof {
                assert(16 + klen64 as int > tail.len());
            }
            return Err(deser_error());
        }
        let klen = klen64 as usize;
        let key = match bytes_to_string(slice_subrange(bytes, off + 8, off + 8 + klen)) {
            Some(s) => s,
            None => {
                proof {
                    assert(bytes@.subrange(off as int + 8, off as int + 8 + klen as int)
                        =~= tail.subrange(8, 8 + klen as int));
                }
                return Err(deser_error());
            },
        };
        proof {
            assert(bytes@.subrange(off as int + 8, off as int + 8 + klen as int) =~= tail.subrange(
                8,
                8 + klen as int,
            ));
        }
        let vlen64 = u64_from_le_bytes(slice_subrange(bytes, off + 8 + klen, off + 16 + klen));
        proof {
            assert(bytes@.subrange(off as int + 8 + klen as int, off as int + 16 + klen as int)
                =~= tail.subrange(8 + klen as int, 16 + klen as int));
        }
        let rem2 = (rem as u64) - klen64 - 16;
        if vlen64 > rem2 || rem2 - vlen64 < 18 {
            proof {
                assert(34 + klen as int + vlen64 as int > tail.len());
            }
            return Err(deser_error());
        }
        let vlen = vlen64 as usize;
        let value = match bytes_to_string(
            slice_subrange(bytes, off + 16 + klen, off + 16 + klen + vlen),
        ) {
            Some(s) => s,
            None => {
                proof {
                    assert(bytes@.subrange(
                        off as int + 16 + klen as int,
                        off as int + 16 + klen as int + vlen as int,
                    ) =~= tail.subrange(16 + klen as int, 16 + klen as int + vlen as int));
                }
                return Err(deser_error());
            },
        };
        proof {
            assert(bytes@.subrange(
                off as int + 16 + klen as int,
                off as int + 16 + klen as int + vlen as int,
            ) =~= tail.subrange(16 + klen as int, 16 + klen as int + vlen as int));
        }
        let created = match decode_i64_bytes(
            slice_subrange(bytes, off + 16 + klen + vlen, off + 25 + klen + vlen),
        ) {
            Some(x) => x,
            None => {
                proof {
                    assert(bytes@.subrange(
                        off as int + 16 + klen as int + vlen as int,
                        off as int + 25 + klen as int + vlen as int,
                    ) =~= tail.subrange(16 + klen as int + vlen as int, 25 + klen as int
                        + vlen as int));
                }
                return Err(deser_error());
            },
        };
        proof {
            assert(bytes@.subrange(
                off as int + 16 + klen as int + vlen as int,
                off as int + 25 + klen as int + vlen as int,
            ) =~= tail.subrange(16 + klen as int + vlen as int, 25 + klen as int + vlen as int));
        }
        let updated = match decode_i64_bytes(
            slice_subrange(bytes, off + 25 + klen + vlen, off + 34 + klen + vlen),
        ) {
            Some(x) => x,
            None => {
                proof {
                    assert(bytes@.subrange(
                        off as int + 25 + klen as int + vlen as int,
                        off as int + 34 + klen as int + vlen as int,
                    ) =~= tail.subrange(25 + klen as int + vlen as int, 34 + klen as int
                        + vlen as int));
                }
                return Err(deser_error());
            },
        };
        proof {
            assert(bytes@.subrange(
                off as int + 25 + klen as int + vlen as int,
                off as int + 34 + klen as int + vlen as int,
            ) =~= tail.subrange(25 + klen as int + vlen as int, 34 + klen as int + vlen as int));
        }
        let row = Row { key, value, created, updated };
        proof {
            let step = 34 + klen as int + vlen as int;
            assert(bytes@.subrange(off as int + step, n as int) =~= tail.subrange(
                step,
                tail.len() as int,
            ));
            let rest_outcome = decode_store(tail.subrange(step, tail.len() as int));
            assert(decode_store(tail) == glue(seq![row@], rest_outcome));
            match rest_outcome {
                Some(rr) => {
                    assert(parsed + (seq![row@] + rr) =~= parsed.push(row@) + rr);
                },
                None => {},
            }
            assert(views_of(out@.push(row)) =~= parsed.push(row@));
        }
        out.push(row);
        off = off + 34 + klen + vlen;
    }
    proof {
        assert(bytes@.subrange(n as int, n as int) =~= Seq::<u8>::empty());
        assert(views_of(out@) + Seq::<RowView>::empty() =~= views_of(out@));
    }
    Ok(out)
}

} // verus!
