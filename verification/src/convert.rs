//! The event converter: pairs raw `pgoutput` messages with the cached
//! relation schemas and decodes column values.
//!
//! Conversion of a data message referencing relation id `r` succeeds if
//! and only if a Relation message for `r` has been registered and every
//! wire value decodes under its column's declared type; a miss is a hard
//! conversion error for that one message, never an empty default.

use vstd::prelude::*;
use crate::model::{Column, DomainEvent, LogicalMessage, RawMessage, RawValue, Tuple, Value};
use crate::cache::RelationCache;
use crate::numfmt::{dec_val, is_dec_digit, read_dec_u64};
use crate::wal::{enc_msg, parse_logical, sv_msg};

verus! {

/// Why a single message could not be converted. Recoverable: the session
/// logs it, skips the message, and keeps streaming.
#[derive(Clone, Copy, PartialEq, Eq, Structural, Debug)]
pub enum ConvertError {
    /// The XLogData payload is not a well-formed logical replication
    /// message.
    Unparsable,
    /// A data message referenced a relation id never announced in this
    /// session.
    UnknownRelation(u32),
    /// The tuple does not match the cached schema, or a value does not
    /// decode under its column's type.
    BadTuple,
}

/// The first position at or after `i` that does not hold a decimal
/// digit.
pub open spec fn digits_end(s: Seq<u8>, i: int) -> int
    decreases s.len() - i
    when 0 <= i <= s.len()
{
    if i < s.len() && is_dec_digit(s[i]) {
        digits_end(s, i + 1)
    } else {
        i
    }
}

pub proof fn lemma_digits_end_bounds(s: Seq<u8>, i: int)
    requires
        0 <= i <= s.len(),
    ensures
        i <= digits_end(s, i) <= s.len(),
        forall|j: int| i <= j < digits_end(s, i) ==> is_dec_digit(#[trigger] s[j]),
        digits_end(s, i) < s.len() ==> !is_dec_digit(s[digits_end(s, i)]),
    decreases s.len() - i,
{
    if i < s.len() && is_dec_digit(s[i]) {
        lemma_digits_end_bounds(s, i + 1);
    }
}

/// A digit run that is maximal pins down `digits_end`.
pub proof fn lemma_digits_end_unique(s: Seq<u8>, start: int, end: int)
    requires
        0 <= start <= end <= s.len(),
        forall|j: int| start <= j < end ==> is_dec_digit(#[trigger] s[j]),
        end < s.len() ==> !is_dec_digit(s[end]),
    ensures
        digits_end(s, start) == end,
    decreases end - start,
{
    if start < end {
        lemma_digits_end_unique(s, start + 1, end);
    }
}

proof fn lemma_dec_val_nonneg(s: Seq<u8>)
    requires
        forall|j: int| 0 <= j < s.len() ==> is_dec_digit(#[trigger] s[j]),
    ensures
        dec_val(s) >= 0,
    decreases s.len(),
{
    if s.len() > 0 {
        lemma_dec_val_nonneg(s.drop_last());
    }
}

/// The value of a digit run only grows as the run extends.
pub proof fn lemma_dec_val_prefix(s: Seq<u8>, k: int)
    requires
        forall|j: int| 0 <= j < s.len() ==> is_dec_digit(#[trigger] s[j]),
        0 <= k <= s.len(),
    ensures
        dec_val(s.take(k)) <= dec_val(s),
    decreases s.len(),
{
    if k < s.len() {
        let dl = s.drop_last();
        assert(forall|j: int| 0 <= j < dl.len() ==> is_dec_digit(#[trigger] dl[j]));
        assert(s.take(k) =~= dl.take(k));
        lemma_dec_val_prefix(dl, k);
        lemma_dec_val_nonneg(dl);
    } else {
        assert(s.take(k) =~= s);
    }
}

/// A textual integer: optional minus sign, then digits to the end, with
/// a value that fits an `i64`.
pub open spec fn is_int_text(s: Seq<u8>) -> bool {
    let start: int = if s.len() > 0 && s[0] == 0x2d {
        1
    } else {
        0
    };
    &&& s.len() > start
    &&& digits_end(s, start) == s.len()
    &&& (if s.len() > 0 && s[0] == 0x2d {
        dec_val(s.subrange(1, s.len() as int)) <= 0x8000_0000_0000_0000
    } else {
        dec_val(s) <= 0x7fff_ffff_ffff_ffff
    })
}

/// The value of a textual integer.
pub open spec fn int_text_val(s: Seq<u8>) -> int {
    if s.len() > 0 && s[0] == 0x2d {
        -dec_val(s.subrange(1, s.len() as int))
    } else {
        dec_val(s)
    }
}

/// Parse a textual integer, accepting exactly `is_int_text`.
pub(crate) fn parse_int_bytes(b: &Vec<u8>) -> (r: Option<i64>)
    ensures
        r is Some <==> is_int_text(b@),
        r matches Some(v) ==> v as int == int_text_val(b@),
{
    let neg = b.len() > 0 && b[0] == 0x2d;
    let start: usize = if neg {
        1
    } else {
        0
    };
    let scanned = read_dec_u64(b, start);
    match scanned {
        None => {
            proof {
                if is_int_text(b@) {
                    let s = b@;
                    let st = start as int;
                    lemma_digits_end_bounds(s, st);
                    assert(digits_end(s, st) == s.len() && s.len() > st);
                    assert(is_dec_digit(s[st]));
                    if exists|e: int|
                        st < e <= s.len() && dec_val(s.subrange(st, e)) > u64::MAX {
                        let e = choose|e: int|
                            st < e <= s.len() && dec_val(s.subrange(st, e)) > u64::MAX;
                        let digits = s.subrange(st, s.len() as int);
                        assert(forall|j: int| 0 <= j < digits.len()
                            ==> is_dec_digit(#[trigger] digits[j]));
                        lemma_dec_val_prefix(digits, e - st);
                        assert(digits.take(e - st) =~= s.subrange(st, e));
                        if neg {
                            assert(dec_val(digits) <= 0x8000_0000_0000_0000);
                        } else {
                            assert(digits =~= s);
                            assert(dec_val(digits) <= 0x7fff_ffff_ffff_ffff);
                        }
                        assert(false);
                    }
                }
            }
            None
        },
        Some((mag, end)) => {
            proof {
                lemma_digits_end_unique(b@, end as int, digits_end(b@, end as int));
            }
            if end != b.len() {
                proof {
                    lemma_digits_end_unique(b@, start as int, end as int);
                }
                return None;
            }
            proof {
                lemma_digits_end_unique(b@, start as int, end as int);
                if neg {
                    assert(b@.subrange(1, b@.len() as int) =~= b@.subrange(
                        start as int,
                        end as int,
                    ));
                } else {
                    assert(b@.subrange(start as int, end as int) =~= b@);
                }
            }
            if neg {
                if mag > 0x8000_0000_0000_0000 {
                    return None;
                }
                let wide: i128 = -(mag as i128);
                Some(wide as i64)
            } else {
                if mag > 0x7fff_ffff_ffff_ffff {
                    return None;
                }
                Some(mag as i64)
            }
        },
    }
}

/// The exponent part of a textual float, starting at `i`: `e` or `E`, an
/// optional sign, then at least one digit reaching the end.
pub open spec fn float_exp_ok(s: Seq<u8>, i: int) -> bool
    recommends
        0 <= i < s.len(),
{
    if s[i] == 0x65 || s[i] == 0x45 {
        let j: int = if i + 1 < s.len() && (s[i + 1] == 0x2b || s[i + 1] == 0x2d) {
            i + 2
        } else {
            i + 1
        };
        j < s.len() && digits_end(s, j) == s.len()
    } else {
        false
    }
}

/// A textual float: optional minus sign, an integer part, an optional
/// fraction, an optional exponent.
pub open spec fn is_float_text(s: Seq<u8>) -> bool {
    let start: int = if s.len() > 0 && s[0] == 0x2d {
        1
    } else {
        0
    };
    let d1 = digits_end(s, start);
    if d1 == start {
        false
    } else if d1 == s.len() {
        true
    } else if s[d1] == 0x2e {
        let d2 = digits_end(s, d1 + 1);
        if d2 == d1 + 1 {
            false
        } else if d2 == s.len() {
            true
        } else {
            float_exp_ok(s, d2)
        }
    } else {
        float_exp_ok(s, d1)
    }
}

/// Scan the digit run beginning at `start`.
fn scan_digits(b: &Vec<u8>, start: usize) -> (r: usize)
    requires
        start <= b@.len(),
    ensures
        r == digits_end(b@, start as int),
        start <= r <= b@.len(),
{
    let mut j: usize = start;
    while j < b.len() && 0x30 <= b[j] && b[j] <= 0x39
        invariant
            start <= j <= b@.len(),
            digits_end(b@, start as int) == digits_end(b@, j as int),
        decreases b@.len() - j,
    {
        j = j + 1;
    }
    j
}

/// Check a textual float, accepting exactly `is_float_text`.
pub(crate) fn check_float_bytes(b: &Vec<u8>) -> (r: bool)
    ensures
        r == is_float_text(b@),
{
    let neg = b.len() > 0 && b[0] == 0x2d;
    let start: usize = if neg {
        1
    } else {
        0
    };
    let d1 = scan_digits(b, start);
    if d1 == start {
        return false;
    }
    if d1 == b.len() {
        return true;
    }
    if b[d1] == 0x2e {
        let d2 = scan_digits(b, d1 + 1);
        if d2 == d1 + 1 {
            return false;
        }
        if d2 == b.len() {
            return true;
        }
        check_float_exp(b, d2)
    } else {
        check_float_exp(b, d1)
    }
}

fn check_float_exp(b: &Vec<u8>, i: usize) -> (r: bool)
    requires
        i < b@.len(),
    ensures
        r == float_exp_ok(b@, i as int),
{
    proof {
        assert(b@.len() == b.len());
    }
    if b[i] == 0x65 || b[i] == 0x45 {
        let j: usize = if i + 1 < b.len() && (b[i + 1] == 0x2b || b[i + 1] == 0x2d) {
            i + 2
        } else {
            i + 1
        };
        if j >= b.len() {
            return false;
        }
        let d = scan_digits(b, j);
        d == b.len()
    } else {
        false
    }
}

/// How one wire value decodes under a column's declared type: textual
/// values of recognized type identifiers become typed values, anything
/// of an unrecognized type identifier passes through as opaque bytes,
/// and a TOAST-omitted value stays the distinct unchanged marker.
pub open spec fn decode_value_spec(type_id: u32, raw: RawValue) -> Option<Value> {
    match raw {
        RawValue::Null => Some(Value::Null),
        RawValue::Unchanged => Some(Value::Unchanged),
        RawValue::Binary(b) => Some(Value::Binary(b)),
        RawValue::Text(b) => {
            if type_id == 16 {
                if b@ == seq![0x74u8] {
                    Some(Value::Bool(true))
                } else if b@ == seq![0x66u8] {
                    Some(Value::Bool(false))
                } else {
                    None
                }
            } else if type_id == 20 || type_id == 21 || type_id == 23 {
                if is_int_text(b@) {
                    Some(Value::Int(int_text_val(b@) as i64))
                } else {
                    None
                }
            } else if type_id == 700 || type_id == 701 {
                if is_float_text(b@) {
                    Some(Value::Float(b))
                } else {
                    None
                }
            } else if type_id == 25 || type_id == 19 || type_id == 1042 || type_id == 1043 {
                Some(Value::Text(b))
            } else {
                Some(Value::Binary(b))
            }
        },
    }
}

/// Decode one wire value.
pub fn decode_value(type_id: u32, raw: RawValue) -> (r: Option<Value>)
    ensures
        r == decode_value_spec(type_id, raw),
{
    match raw {
        RawValue::Null => Some(Value::Null),
        RawValue::Unchanged => Some(Value::Unchanged),
        RawValue::Binary(b) => Some(Value::Binary(b)),
        RawValue::Text(b) => {
            if type_id == 16 {
                if b.len() == 1 && b[0] == 0x74 {
                    proof {
                        assert(b@ =~= seq![0x74u8]);
                    }
                    Some(Value::Bool(true))
                } else if b.len() == 1 && b[0] == 0x66 {
                    proof {
                        assert(b@ =~= seq![0x66u8]);
                    }
                    Some(Value::Bool(false))
                } else {
                    proof {
                        assert(b@ != seq![0x74u8] && b@ != seq![0x66u8]) by {
                            if b@.len() == 1 {
                                assert(b@[0] == b[0 as int]);
                            }
                        }
                    }
                    None
                }
            } else if type_id == 20 || type_id == 21 || type_id == 23 {
                match parse_int_bytes(&b) {
                    Some(v) => Some(Value::Int(v)),
                    None => None,
                }
            } else if type_id == 700 || type_id == 701 {
                if check_float_bytes(&b) {
                    Some(Value::Float(b))
                } else {
                    None
                }
            } else if type_id == 25 || type_id == 19 || type_id == 1042 || type_id == 1043 {
                Some(Value::Text(b))
            } else {
                Some(Value::Binary(b))
            }
        },
    }
}

/// Whether a whole positional tuple decodes under a schema.
pub open spec fn tuple_decodes(cols: Seq<Column>, vals: Seq<RawValue>) -> bool {
    &&& cols.len() == vals.len()
    &&& forall|i: int| 0 <= i < vals.len()
        ==> (#[trigger] decode_value_spec(cols[i].type_id, vals[i])) is Some
}

/// The decoded tuple: each positional value paired with its column's
/// name.
pub open spec fn decoded_tuple(cols: Seq<Column>, vals: Seq<RawValue>) -> Seq<(Seq<u8>, Value)> {
    Seq::new(
        vals.len(),
        |i: int| (cols[i].name@, decode_value_spec(cols[i].type_id, vals[i]).unwrap()),
    )
}

/// Copy a byte string.
fn copy_bytes(src: &Vec<u8>) -> (r: Vec<u8>)
    ensures
        r@ == src@,
{
    let mut out: Vec<u8> = Vec::new();
    let mut i: usize = 0;
    while i < src.len()
        invariant
            i <= src@.len(),
            out@ == src@.subrange(0, i as int),
        decreases src@.len() - i,
    {
        proof {
            assert(src@.len() == src.len());
        }
        out.push(src[i]);
        i = i + 1;
        proof {
            assert(out@ =~= src@.subrange(0, i as int));
        }
    }
    proof {
        assert(src@.subrange(0, src@.len() as int) =~= src@);
    }
    out
}

/// Pair a positional tuple with the cached columns and decode every
/// value. `Some` exactly when the tuple matches the schema and every
/// value decodes.
pub fn decode_tuple(cols: &Vec<Column>, vals: Vec<RawValue>) -> (r: Option<Tuple>)
    ensures
        r is Some <==> tuple_decodes(cols@, vals@),
        r matches Some(t) ==> t@ == decoded_tuple(cols@, vals@),
{
    if cols.len() != vals.len() {
        return None;
    }
    let ghost vals0 = vals@;
    proof {
        assert(tuple_decodes(cols@, vals@) == tuple_decodes(cols@, vals0));
    }
    let mut rest = vals;
    let mut out: Vec<(Vec<u8>, Value)> = Vec::new();
    let mut i: usize = 0;
    while i < cols.len()
        invariant
            vals0 == vals@,
            i <= cols@.len(),
            cols@.len() == vals0.len(),
            rest@ == vals0.subrange(i as int, vals0.len() as int),
            out@.len() == i,
            forall|j: int| #![auto] 0 <= j < i
                ==> decode_value_spec(cols@[j].type_id, vals0[j]) is Some,
            forall|j: int| #![auto] 0 <= j < i ==> (out@[j].0@, out@[j].1) == (
                cols@[j].name@,
                decode_value_spec(cols@[j].type_id, vals0[j]).unwrap(),
            ),
        decreases cols@.len() - i,
    {
        let rv = rest.remove(0);
        proof {
            assert(rv == vals0[i as int]);
            assert(rest@ =~= vals0.subrange(i + 1, vals0.len() as int));
        }
        let name = copy_bytes(&cols[i].name);
        match decode_value(cols[i].type_id, rv) {
            Some(v) => {
                out.push((name, v));
            },
            None => {
                proof {
                    assert(decode_value_spec(cols@[i as int].type_id, vals0[i as int]) is None);
                    assert(!tuple_decodes(cols@, vals0));
                }
                return None;
            },
        }
        i = i + 1;
    }
    let t = Tuple { cols: out };
    proof {
        assert(t@ =~= decoded_tuple(cols@, vals0));
    }
    Some(t)
}

/// Whether a parsed message converts under the given schema cache: data
/// messages need their relation registered and their tuples decodable;
/// every other message always converts.
pub open spec fn convertible(schema: Map<u32, Seq<Column>>, raw: RawMessage) -> bool {
    match raw {
        RawMessage::Insert { rel_id, new } => schema.contains_key(rel_id) && tuple_decodes(
            schema[rel_id],
            new@,
        ),
        RawMessage::Update { rel_id, old_kind, old, new } => {
            &&& schema.contains_key(rel_id)
            &&& tuple_decodes(schema[rel_id], new@)
            &&& (match old {
                Some(o) => tuple_decodes(schema[rel_id], o@),
                None => true,
            })
        },
        RawMessage::Delete { rel_id, old_kind, old } => schema.contains_key(rel_id)
            && tuple_decodes(schema[rel_id], old@),
        _ => true,
    }
}

/// The error reported for a data message that does not convert.
pub open spec fn convert_error(schema: Map<u32, Seq<Column>>, raw: RawMessage) -> ConvertError {
    match raw.spec_data_rel_id() {
        Some(rel_id) => if !schema.contains_key(rel_id) {
            ConvertError::UnknownRelation(rel_id)
        } else {
            ConvertError::BadTuple
        },
        None => ConvertError::BadTuple,
    }
}

/// How a converted message corresponds to its raw form.
pub open spec fn converts_to(
    schema: Map<u32, Seq<Column>>,
    raw: RawMessage,
    out: LogicalMessage,
) -> bool {
    match raw {
        RawMessage::Begin { final_lsn, timestamp, xid } => out == (LogicalMessage::Begin {
            xid,
            final_lsn,
        }),
        RawMessage::Commit { flags, commit_lsn, end_lsn, timestamp } => out
            == (LogicalMessage::Commit { lsn: commit_lsn, end_lsn }),
        RawMessage::Origin { commit_lsn, name } => out == (LogicalMessage::Origin {
            commit_lsn,
            name,
        }),
        RawMessage::Relation { rel_id, namespace, name, replica_identity, columns } => out
            == (LogicalMessage::Relation { rel_id, namespace, name, columns }),
        RawMessage::Type { id, namespace, name } => out == (LogicalMessage::Type {
            id,
            namespace,
            name,
        }),
        RawMessage::Insert { rel_id, new } => match out {
            LogicalMessage::Insert { rel_id: r2, new: t } => r2 == rel_id && t@ == decoded_tuple(
                schema[rel_id],
                new@,
            ),
            _ => false,
        },
        RawMessage::Update { rel_id, old_kind, old, new } => match out {
            LogicalMessage::Update { rel_id: r2, old: o2, new: t2 } => {
                &&& r2 == rel_id
                &&& t2@ == decoded_tuple(schema[rel_id], new@)
                &&& (match (old, o2) {
                    (Some(o), Some(t)) => t@ == decoded_tuple(schema[rel_id], o@),
                    (None, None) => true,
                    _ => false,
                })
            },
            _ => false,
        },
        RawMessage::Delete { rel_id, old_kind, old } => match out {
            LogicalMessage::Delete { rel_id: r2, old: t } => r2 == rel_id && t@ == decoded_tuple(
                schema[rel_id],
                old@,
            ),
            _ => false,
        },
        RawMessage::Truncate { options, rel_ids } => out == (LogicalMessage::Truncate {
            options,
            rel_ids,
        }),
    }
}

/// Convert one parsed message against the current cache snapshot. Pure:
/// the caller registers Relation messages in the cache afterwards, once
/// the event has been forwarded.
pub fn convert_message(cache: &RelationCache, raw: RawMessage) -> (r: Result<
    LogicalMessage,
    ConvertError,
>)
    ensures
        r is Ok <==> convertible(cache@, raw),
        r matches Ok(m) ==> converts_to(cache@, raw, m),
        r matches Err(e) ==> e == convert_error(cache@, raw),
{
    match raw {
        RawMessage::Begin { final_lsn, timestamp, xid } => Ok(
            LogicalMessage::Begin { xid, final_lsn },
        ),
        RawMessage::Commit { flags, commit_lsn, end_lsn, timestamp } => Ok(
            LogicalMessage::Commit { lsn: commit_lsn, end_lsn },
        ),
        RawMessage::Origin { commit_lsn, name } => Ok(LogicalMessage::Origin { commit_lsn, name }),
        RawMessage::Relation { rel_id, namespace, name, replica_identity, columns } => Ok(
            LogicalMessage::Relation { rel_id, namespace, name, columns },
        ),
        RawMessage::Type { id, namespace, name } => Ok(LogicalMessage::Type { id, namespace, name }),
        RawMessage::Insert { rel_id, new } => match cache.get(rel_id) {
            None => Err(ConvertError::UnknownRelation(rel_id)),
            Some(cols) => match decode_tuple(cols, new) {
                Some(t) => Ok(LogicalMessage::Insert { rel_id, new: t }),
                None => Err(ConvertError::BadTuple),
            },
        },
        RawMessage::Update { rel_id, old_kind, old, new } => match cache.get(rel_id) {
            None => Err(ConvertError::UnknownRelation(rel_id)),
            Some(cols) => {
                let old_t = match old {
                    Some(o) => match decode_tuple(cols, o) {
                        Some(t) => Some(t),
                        None => { return Err(ConvertError::BadTuple); },
                    },
                    None => None,
                };
                match decode_tuple(cols, new) {
                    Some(t2) => Ok(LogicalMessage::Update { rel_id, old: old_t, new: t2 }),
                    None => Err(ConvertError::BadTuple),
                }
            },
        },
        RawMessage::Delete { rel_id, old_kind, old } => match cache.get(rel_id) {
            None => Err(ConvertError::UnknownRelation(rel_id)),
            Some(cols) => match decode_tuple(cols, old) {
                Some(t) => Ok(LogicalMessage::Delete { rel_id, old: t }),
                None => Err(ConvertError::BadTuple),
            },
        },
        RawMessage::Truncate { options, rel_ids } => Ok(
            LogicalMessage::Truncate { options, rel_ids },
        ),
    }
}

/// Convert a whole XLogData frame: parse the payload, then convert the
/// message against the cache snapshot. The event keeps the envelope's
/// WAL position and server timestamp.
pub fn convert_replication_event(
    cache: &RelationCache,
    lsn: u64,
    timestamp: i64,
    payload: &Vec<u8>,
) -> (r: Result<DomainEvent, ConvertError>)
    ensures
        r matches Ok(ev) ==> {
            &&& ev.lsn == lsn
            &&& ev.timestamp == timestamp
            &&& exists|raw: RawMessage|
                {
                    &&& #[trigger] enc_msg(raw) == payload@
                    &&& convertible(cache@, raw)
                    &&& converts_to(cache@, raw, ev.message)
                }
        },
        r matches Err(e) ==> e == ConvertError::Unparsable || exists|raw: RawMessage|
            {
                &&& #[trigger] enc_msg(raw) == payload@
                &&& !convertible(cache@, raw)
                &&& e == convert_error(cache@, raw)
            },
        r == Err::<DomainEvent, ConvertError>(ConvertError::Unparsable) <==> !sv_msg(payload@),
{
    match parse_logical(payload) {
        None => Err(ConvertError::Unparsable),
        Some(raw) => {
            let ghost graw = raw;
            match convert_message(cache, raw) {
                Ok(message) => {
                    let ev = DomainEvent { lsn, timestamp, message };
                    proof {
                        assert(enc_msg(graw) == payload@ && convertible(cache@, graw)
                            && converts_to(cache@, graw, ev.message));
                    }
                    Ok(ev)
                },
                Err(e) => {
                    proof {
                        assert(enc_msg(graw) == payload@ && !convertible(cache@, graw)
                            && e == convert_error(cache@, graw));
                        assert(e != ConvertError::Unparsable);
                    }
                    Err(e)
                },
            }
        },
    }
}

} // verus!
