//! The `pgoutput` logical replication wire grammar.
//!
//! `enc_*` spec functions define the byte format of each message — they
//! are the format's written-down definition — and the `sv_*` spec
//! functions decide which byte strings are well-formed. The parsers
//! promise both directions: they succeed exactly on the well-formed
//! inputs, and a successfully parsed message is exactly the one whose
//! encoding is the input.

use vstd::prelude::*;
use crate::model::{Column, RawMessage, RawValue};

verus! {

/// 256 to the power `k`.
pub open spec fn pow256(k: nat) -> int
    decreases k,
{
    if k == 0 {
        1
    } else {
        256 * pow256((k - 1) as nat)
    }
}

proof fn lemma_pow256_pos(k: nat)
    ensures
        pow256(k) >= 1,
    decreases k,
{
    if k > 0 {
        lemma_pow256_pos((k - 1) as nat);
    }
}

proof fn lemma_pow256_increases(a: nat, b: nat)
    requires
        a <= b,
    ensures
        pow256(a) <= pow256(b),
    decreases b,
{
    if a < b {
        lemma_pow256_increases(a, (b - 1) as nat);
        lemma_pow256_pos((b - 1) as nat);
    }
}

/// Big-endian bytes of the low `k` bytes of `n`.
pub open spec fn be_bytes(n: int, k: nat) -> Seq<u8>
    decreases k,
{
    if k == 0 {
        Seq::empty()
    } else {
        be_bytes(n / 256, (k - 1) as nat).push((n % 256) as u8)
    }
}

/// The value of a big-endian byte sequence.
pub open spec fn be_val(s: Seq<u8>) -> int
    decreases s.len(),
{
    if s.len() == 0 {
        0
    } else {
        be_val(s.drop_last()) * 256 + s.last()
    }
}

pub proof fn lemma_be_val_bound(s: Seq<u8>)
    ensures
        0 <= be_val(s) < pow256(s.len()),
    decreases s.len(),
{
    if s.len() > 0 {
        lemma_be_val_bound(s.drop_last());
    }
}

/// Rendering the value of `k` bytes back to `k` bytes is the identity.
pub proof fn lemma_be_round_trip(s: Seq<u8>)
    ensures
        be_bytes(be_val(s), s.len()) == s,
    decreases s.len(),
{
    if s.len() == 0 {
        assert(be_bytes(be_val(s), s.len()) =~= s);
    } else {
        let dl = s.drop_last();
        lemma_be_round_trip(dl);
        lemma_be_val_bound(dl);
        let v = be_val(s);
        vstd::arithmetic::div_mod::lemma_fundamental_div_mod_converse(
            v, 256, be_val(dl), s.last() as int,
        );
        assert(be_bytes(v, s.len()) =~= s);
    }
}

/// A C string on the wire: the bytes followed by a NUL terminator.
pub open spec fn enc_cstr(s: Seq<u8>) -> Seq<u8> {
    s + seq![0u8]
}

/// One tuple value on the wire: SQL NULL `n`, TOAST-omitted `u`, textual
/// `t` or binary `b`, the latter two length-prefixed.
pub open spec fn enc_raw_value(v: RawValue) -> Seq<u8> {
    match v {
        RawValue::Null => seq![0x6eu8],
        RawValue::Unchanged => seq![0x75u8],
        RawValue::Text(b) => seq![0x74u8] + be_bytes(b@.len() as int, 4) + b@,
        RawValue::Binary(b) => seq![0x62u8] + be_bytes(b@.len() as int, 4) + b@,
    }
}

pub open spec fn enc_raw_values(vs: Seq<RawValue>) -> Seq<u8>
    decreases vs.len(),
{
    if vs.len() == 0 {
        Seq::empty()
    } else {
        enc_raw_values(vs.drop_last()) + enc_raw_value(vs.last())
    }
}

/// Tuple data: a two-byte column count, then the values in order.
pub open spec fn enc_tuple_data(vs: Seq<RawValue>) -> Seq<u8> {
    be_bytes(vs.len() as int, 2) + enc_raw_values(vs)
}

/// One column of a Relation message: flags, name, type id, type modifier.
pub open spec fn enc_column(c: Column) -> Seq<u8> {
    seq![c.flags] + enc_cstr(c.name@) + be_bytes(c.type_id as int, 4) + be_bytes(
        (c.type_modifier as u32) as int,
        4,
    )
}

pub open spec fn enc_columns(cs: Seq<Column>) -> Seq<u8>
    decreases cs.len(),
{
    if cs.len() == 0 {
        Seq::empty()
    } else {
        enc_columns(cs.drop_last()) + enc_column(cs.last())
    }
}

pub open spec fn enc_rel_ids(ids: Seq<u32>) -> Seq<u8>
    decreases ids.len(),
{
    if ids.len() == 0 {
        Seq::empty()
    } else {
        enc_rel_ids(ids.drop_last()) + be_bytes(ids.last() as int, 4)
    }
}

/// The full encoding of a logical replication message.
pub open spec fn enc_msg(m: RawMessage) -> Seq<u8> {
    match m {
        RawMessage::Begin { final_lsn, timestamp, xid } => seq![0x42u8] + be_bytes(
            final_lsn as int,
            8,
        ) + be_bytes((timestamp as u64) as int, 8) + be_bytes(xid as int, 4),
        RawMessage::Commit { flags, commit_lsn, end_lsn, timestamp } => seq![0x43u8, flags]
            + be_bytes(commit_lsn as int, 8) + be_bytes(end_lsn as int, 8) + be_bytes(
            (timestamp as u64) as int,
            8,
        ),
        RawMessage::Origin { commit_lsn, name } => seq![0x4fu8] + be_bytes(commit_lsn as int, 8)
            + enc_cstr(name@),
        RawMessage::Relation { rel_id, namespace, name, replica_identity, columns } => seq![
            0x52u8,
        ] + be_bytes(rel_id as int, 4) + enc_cstr(namespace@) + enc_cstr(name@) + seq![
            replica_identity,
        ] + be_bytes(columns@.len() as int, 2) + enc_columns(columns@),
        RawMessage::Type { id, namespace, name } => seq![0x59u8] + be_bytes(id as int, 4)
            + enc_cstr(namespace@) + enc_cstr(name@),
        RawMessage::Insert { rel_id, new } => seq![0x49u8] + be_bytes(rel_id as int, 4) + seq![
            0x4eu8,
        ] + enc_tuple_data(new@),
        RawMessage::Update { rel_id, old_kind, old, new } => seq![0x55u8] + be_bytes(
            rel_id as int,
            4,
        ) + (match old {
            Some(t) => seq![old_kind] + enc_tuple_data(t@),
            None => Seq::empty(),
        }) + seq![0x4eu8] + enc_tuple_data(new@),
        RawMessage::Delete { rel_id, old_kind, old } => seq![0x44u8] + be_bytes(rel_id as int, 4)
            + seq![old_kind] + enc_tuple_data(old@),
        RawMessage::Truncate { options, rel_ids } => seq![0x54u8] + be_bytes(
            rel_ids@.len() as int,
            4,
        ) + seq![options] + enc_rel_ids(rel_ids@),
    }
}


/// The first position at or after `i` that holds a NUL byte, or the end.
pub open spec fn nul_end(s: Seq<u8>, i: int) -> int
    decreases s.len() - i
    when 0 <= i <= s.len()
{
    if i < s.len() && s[i] != 0 {
        nul_end(s, i + 1)
    } else {
        i
    }
}

proof fn lemma_nul_end_bounds(s: Seq<u8>, i: int)
    requires
        0 <= i <= s.len(),
    ensures
        i <= nul_end(s, i) <= s.len(),
        forall|j: int| i <= j < nul_end(s, i) ==> (#[trigger] s[j]) != 0,
        nul_end(s, i) < s.len() ==> s[nul_end(s, i)] == 0,
    decreases s.len() - i,
{
    if i < s.len() && s[i] != 0 {
        lemma_nul_end_bounds(s, i + 1);
    }
}

/// A maximal NUL-free run pins down `nul_end`.
proof fn lemma_nul_end_unique(s: Seq<u8>, start: int, end: int)
    requires
        0 <= start <= end <= s.len(),
        forall|j: int| start <= j < end ==> (#[trigger] s[j]) != 0,
        end < s.len() ==> s[end] == 0,
    ensures
        nul_end(s, start) == end,
    decreases end - start,
{
    if start < end {
        lemma_nul_end_unique(s, start + 1, end);
    }
}

/// Where one tuple value ends, if one stands at `pos`.
pub open spec fn sv_value(s: Seq<u8>, pos: int) -> Option<int> {
    if !(0 <= pos < s.len()) {
        None
    } else {
        let tag = s[pos];
        if tag == 0x6e || tag == 0x75 {
            Some(pos + 1)
        } else if tag == 0x74 || tag == 0x62 {
            if pos + 5 <= s.len() {
                let n = be_val(s.subrange(pos + 1, pos + 5));
                if pos + 5 + n <= s.len() {
                    Some(pos + 5 + n)
                } else {
                    None
                }
            } else {
                None
            }
        } else {
            None
        }
    }
}

/// Where `n` consecutive tuple values end.
pub open spec fn sv_values(s: Seq<u8>, pos: int, n: int) -> Option<int>
    decreases n,
{
    if n <= 0 {
        Some(pos)
    } else {
        match sv_value(s, pos) {
            Some(p) => sv_values(s, p, n - 1),
            None => None,
        }
    }
}

/// Where tuple data (count plus values) ends, if it stands at `pos`.
pub open spec fn sv_tuple(s: Seq<u8>, pos: int) -> Option<int> {
    if 0 <= pos && pos + 2 <= s.len() {
        sv_values(s, pos + 2, be_val(s.subrange(pos, pos + 2)))
    } else {
        None
    }
}

/// Where one column description ends, if one stands at `pos`.
pub open spec fn sv_column(s: Seq<u8>, pos: int) -> Option<int> {
    if !(0 <= pos < s.len()) {
        None
    } else {
        let ne = nul_end(s, pos + 1);
        if ne < s.len() && ne + 9 <= s.len() {
            Some(ne + 9)
        } else {
            None
        }
    }
}

/// Where `n` consecutive column descriptions end.
pub open spec fn sv_columns(s: Seq<u8>, pos: int, n: int) -> Option<int>
    decreases n,
{
    if n <= 0 {
        Some(pos)
    } else {
        match sv_column(s, pos) {
            Some(p) => sv_columns(s, p, n - 1),
            None => None,
        }
    }
}

/// Where a column list (count plus columns) ends, if one stands at `pos`.
pub open spec fn sv_cols_block(s: Seq<u8>, pos: int) -> Option<int> {
    if 0 <= pos && pos + 2 <= s.len() {
        sv_columns(s, pos + 2, be_val(s.subrange(pos, pos + 2)))
    } else {
        None
    }
}

/// Whether a whole payload is a well-formed logical replication message:
/// the deterministic scan of the grammar, consuming every byte.
pub open spec fn sv_msg(s: Seq<u8>) -> bool {
    if s.len() == 0 {
        false
    } else {
        let tag = s[0];
        if tag == 0x42 {
            s.len() == 21
        } else if tag == 0x43 {
            s.len() == 26
        } else if tag == 0x4f {
            s.len() >= 9 && nul_end(s, 9) == s.len() - 1
        } else if tag == 0x52 {
            {
                let n1 = nul_end(s, 5);
                5 <= s.len() && n1 < s.len() && {
                    let n2 = nul_end(s, n1 + 1);
                    n2 < s.len() && n2 + 2 < s.len() && sv_cols_block(s, n2 + 2) == Some(
                        s.len() as int,
                    )
                }
            }
        } else if tag == 0x59 {
            {
                let n1 = nul_end(s, 5);
                5 <= s.len() && n1 < s.len() && nul_end(s, n1 + 1) == s.len() - 1
            }
        } else if tag == 0x49 {
            5 < s.len() && s[5] == 0x4e && sv_tuple(s, 6) == Some(s.len() as int)
        } else if tag == 0x55 {
            5 < s.len() && {
                let k = s[5];
                if k == 0x4b || k == 0x4f {
                    match sv_tuple(s, 6) {
                        Some(p) => p < s.len() && s[p] == 0x4e && sv_tuple(s, p + 1) == Some(
                            s.len() as int,
                        ),
                        None => false,
                    }
                } else if k == 0x4e {
                    sv_tuple(s, 6) == Some(s.len() as int)
                } else {
                    false
                }
            }
        } else if tag == 0x44 {
            5 < s.len() && (s[5] == 0x4b || s[5] == 0x4f) && sv_tuple(s, 6) == Some(s.len() as int)
        } else if tag == 0x54 {
            6 <= s.len() && s.len() == 6 + 4 * be_val(s.subrange(1, 5))
        } else {
            false
        }
    }
}

/// Whether a whole frame is well-formed: WAL data with its envelope and
/// any payload, or a complete keepalive.
pub open spec fn sv_frame(s: Seq<u8>) -> bool {
    if s.len() == 0 {
        false
    } else if s[0] == 0x77 {
        s.len() >= 25
    } else if s[0] == 0x6b {
        s.len() == 18
    } else {
        false
    }
}

/// Read `k <= 8` big-endian bytes at `pos`.
fn read_be(buf: &Vec<u8>, pos: usize, k: usize) -> (r: Option<(u64, usize)>)
    requires
        k <= 8,
    ensures
        match r {
            Some(p) => {
                let (v, end) = p;
                &&& end == pos + k
                &&& end <= buf@.len()
                &&& v as int == be_val(buf@.subrange(pos as int, end as int))
                &&& buf@.subrange(pos as int, end as int) == be_bytes(v as int, k as nat)
            },
            None => pos + k > buf@.len(),
        },
{
    if buf.len() < k || pos > buf.len() - k {
        return None;
    }
    let mut acc: u64 = 0;
    let mut i: usize = 0;
    proof {
        assert(buf@.subrange(pos as int, pos as int) =~= Seq::<u8>::empty());
    }
    while i < k
        invariant
            i <= k <= 8,
            pos + k <= buf@.len(),
            acc as int == be_val(buf@.subrange(pos as int, (pos + i) as int)),
            (acc as int) < pow256(i as nat),
        decreases k - i,
    {
        proof {
            assert(buf@.len() == buf.len());
            lemma_pow256_increases((i + 1) as nat, 8);
            reveal_with_fuel(pow256, 9);
            assert((acc as int) * 256 + buf@[pos + i] < pow256((i + 1) as nat));
        }
        let b = buf[pos + i];
        acc = acc * 256 + b as u64;
        i = i + 1;
        proof {
            let s = buf@.subrange(pos as int, (pos + i) as int);
            assert(s.drop_last() =~= buf@.subrange(pos as int, (pos + i - 1) as int));
        }
    }
    proof {
        lemma_be_round_trip(buf@.subrange(pos as int, (pos + k) as int));
    }
    Some((acc, pos + k))
}

/// Read one byte.
fn read_u8(buf: &Vec<u8>, pos: usize) -> (r: Option<(u8, usize)>)
    ensures
        match r {
            Some(p) => {
                let (b, end) = p;
                &&& pos < buf@.len()
                &&& b == buf@[pos as int]
                &&& end == pos + 1
            },
            None => pos >= buf@.len(),
        },
{
    if pos < buf.len() {
        Some((buf[pos], pos + 1))
    } else {
        None
    }
}

/// Read a big-endian `u16`.
fn read_u16(buf: &Vec<u8>, pos: usize) -> (r: Option<(u16, usize)>)
    ensures
        match r {
            Some(p) => {
                let (v, end) = p;
                &&& end == pos + 2 && end <= buf@.len()
                &&& buf@.subrange(pos as int, end as int) == be_bytes(v as int, 2)
                &&& v as int == be_val(buf@.subrange(pos as int, end as int))
            },
            None => pos + 2 > buf@.len(),
        },
{
    match read_be(buf, pos, 2) {
        Some((v, end)) => {
            proof {
                lemma_be_val_bound(buf@.subrange(pos as int, end as int));
                reveal_with_fuel(pow256, 3);
            }
            Some((v as u16, end))
        },
        None => None,
    }
}

/// Read a big-endian `u32`.
fn read_u32(buf: &Vec<u8>, pos: usize) -> (r: Option<(u32, usize)>)
    ensures
        match r {
            Some(p) => {
                let (v, end) = p;
                &&& end == pos + 4 && end <= buf@.len()
                &&& buf@.subrange(pos as int, end as int) == be_bytes(v as int, 4)
                &&& v as int == be_val(buf@.subrange(pos as int, end as int))
            },
            None => pos + 4 > buf@.len(),
        },
{
    match read_be(buf, pos, 4) {
        Some((v, end)) => {
            proof {
                lemma_be_val_bound(buf@.subrange(pos as int, end as int));
                reveal_with_fuel(pow256, 5);
            }
            Some((v as u32, end))
        },
        None => None,
    }
}

/// Read a big-endian `u64`.
fn read_u64(buf: &Vec<u8>, pos: usize) -> (r: Option<(u64, usize)>)
    ensures
        match r {
            Some(p) => {
                let (v, end) = p;
                &&& end == pos + 8 && end <= buf@.len()
                &&& buf@.subrange(pos as int, end as int) == be_bytes(v as int, 8)
            },
            None => pos + 8 > buf@.len(),
        },
{
    read_be(buf, pos, 8)
}

/// Read a big-endian `i64` (two's complement).
fn read_i64(buf: &Vec<u8>, pos: usize) -> (r: Option<(i64, usize)>)
    ensures
        match r {
            Some(p) => {
                let (v, end) = p;
                &&& end == pos + 8 && end <= buf@.len()
                &&& buf@.subrange(pos as int, end as int) == be_bytes((v as u64) as int, 8)
            },
            None => pos + 8 > buf@.len(),
        },
{
    match read_u64(buf, pos) {
        Some((v, end)) => {
            proof {
                assert(((v as i64) as u64) == v) by (bit_vector);
            }
            Some((v as i64, end))
        },
        None => None,
    }
}

/// Copy `n` bytes at `pos`.
fn read_bytes(buf: &Vec<u8>, pos: usize, n: usize) -> (r: Option<(Vec<u8>, usize)>)
    ensures
        match r {
            Some(p) => {
                let (s, end) = p;
                &&& end == pos + n && end <= buf@.len()
                &&& s@ == buf@.subrange(pos as int, end as int)
            },
            None => pos + n > buf@.len(),
        },
{
    if buf.len() < n || pos > buf.len() - n {
        return None;
    }
    let mut out: Vec<u8> = Vec::new();
    let mut i: usize = 0;
    while i < n
        invariant
            i <= n,
            pos + n <= buf@.len(),
            out@ == buf@.subrange(pos as int, (pos + i) as int),
        decreases n - i,
    {
        proof {
            assert(buf@.len() == buf.len());
            assert(pos + i < buf@.len());
        }
        out.push(buf[pos + i]);
        i = i + 1;
        proof {
            assert(out@ =~= buf@.subrange(pos as int, (pos + i) as int));
        }
    }
    Some((out, pos + n))
}

/// Copy the bytes of `[from, to)`.
pub(crate) fn copy_range(buf: &Vec<u8>, from: usize, to: usize) -> (r: Option<Vec<u8>>)
    ensures
        match r {
            Some(v) => from <= to <= buf@.len() && v@ == buf@.subrange(from as int, to as int),
            None => true,
        },
{
    if from > to {
        return None;
    }
    match read_bytes(buf, from, to - from) {
        Some((v, _)) => Some(v),
        None => None,
    }
}

/// Read a NUL-terminated string; the returned bytes exclude the
/// terminator and contain no NUL. Succeeds exactly when a NUL byte
/// stands at or after `pos`.
fn read_cstr(buf: &Vec<u8>, pos: usize) -> (r: Option<(Vec<u8>, usize)>)
    ensures
        match r {
            Some(p) => {
                let (s, end) = p;
                &&& pos < end && end <= buf@.len()
                &&& buf@.subrange(pos as int, end as int) == enc_cstr(s@)
                &&& pos <= buf@.len() && nul_end(buf@, pos as int) == end - 1
            },
            None => pos > buf@.len() || nul_end(buf@, pos as int) == buf@.len(),
        },
{
    if pos > buf.len() {
        return None;
    }
    let mut out: Vec<u8> = Vec::new();
    let mut i: usize = pos;
    proof {
        assert(out@ =~= buf@.subrange(pos as int, pos as int));
    }
    while i < buf.len()
        invariant
            pos <= i <= buf@.len(),
            out@ == buf@.subrange(pos as int, i as int),
            forall|j: int| pos <= j < i ==> (#[trigger] buf@[j]) != 0,
        decreases buf@.len() - i,
    {
        proof {
            assert(buf@.len() == buf.len());
        }
        let b = buf[i];
        i = i + 1;
        if b == 0 {
            proof {
                assert(buf@.subrange(pos as int, i as int) =~= enc_cstr(out@));
                lemma_nul_end_unique(buf@, pos as int, i - 1);
            }
            return Some((out, i));
        }
        out.push(b);
        proof {
            assert(out@ =~= buf@.subrange(pos as int, i as int));
        }
    }
    proof {
        lemma_nul_end_unique(buf@, pos as int, buf@.len() as int);
    }
    None
}

/// Read tuple data: a two-byte count, then that many values. Succeeds
/// exactly when well-formed tuple data stands at `pos`.
fn read_tuple_data(buf: &Vec<u8>, pos: usize) -> (r: Option<(Vec<RawValue>, usize)>)
    ensures
        match r {
            Some(p) => {
                let (vs, end) = p;
                &&& pos <= end <= buf@.len()
                &&& buf@.subrange(pos as int, end as int) == enc_tuple_data(vs@)
                &&& sv_tuple(buf@, pos as int) == Some(end as int)
            },
            None => sv_tuple(buf@, pos as int) is None,
        },
{
    let (count, start) = match read_u16(buf, pos) {
        Some(x) => x,
        None => { return None; },
    };
    let ghost n0: int = count as int;
    let mut vs: Vec<RawValue> = Vec::new();
    let mut cur: usize = start;
    let mut j: u16 = 0;
    proof {
        assert(buf@.subrange(start as int, start as int) =~= enc_raw_values(vs@));
        assert(sv_tuple(buf@, pos as int) == sv_values(buf@, start as int, n0));
    }
    while j < count
        invariant
            j <= count,
            n0 == count as int,
            vs@.len() == j,
            start <= cur <= buf@.len(),
            start == pos + 2,
            buf@.subrange(pos as int, start as int) == be_bytes(count as int, 2),
            buf@.subrange(start as int, cur as int) == enc_raw_values(vs@),
            sv_tuple(buf@, pos as int) == sv_values(buf@, cur as int, n0 - j),
        decreases count - j,
    {
        let ghost prev_vs = vs@;
        let ghost prev_cur = cur as int;
        let (tag, c1) = match read_u8(buf, cur) {
            Some(x) => x,
            None => { return None; },
        };
        if tag == 0x6e {
            vs.push(RawValue::Null);
            cur = c1;
            proof {
                assert(buf@.subrange(prev_cur, cur as int) =~= enc_raw_value(RawValue::Null));
                assert(sv_value(buf@, prev_cur) == Some(cur as int));
            }
        } else if tag == 0x75 {
            vs.push(RawValue::Unchanged);
            cur = c1;
            proof {
                assert(buf@.subrange(prev_cur, cur as int) =~= enc_raw_value(RawValue::Unchanged));
                assert(sv_value(buf@, prev_cur) == Some(cur as int));
            }
        } else if tag == 0x74 || tag == 0x62 {
            let (len, c2) = match read_u32(buf, c1) {
                Some(x) => x,
                None => {
                    proof {
                        assert(sv_value(buf@, prev_cur) is None);
                    }
                    return None;
                },
            };
            let (bytes, c3) = match read_bytes(buf, c2, len as usize) {
                Some(x) => x,
                None => {
                    proof {
                        assert(sv_value(buf@, prev_cur) is None);
                    }
                    return None;
                },
            };
            let ghost bv = bytes@;
            let v = if tag == 0x74 {
                RawValue::Text(bytes)
            } else {
                RawValue::Binary(bytes)
            };
            proof {
                assert(buf@.subrange(prev_cur, c3 as int) =~= seq![tag] + buf@.subrange(
                    c1 as int,
                    c2 as int,
                ) + buf@.subrange(c2 as int, c3 as int));
                assert(buf@.subrange(prev_cur, c3 as int) =~= enc_raw_value(v));
                assert(sv_value(buf@, prev_cur) == Some(c3 as int));
            }
            vs.push(v);
            cur = c3;
        } else {
            proof {
                assert(sv_value(buf@, prev_cur) is None);
            }
            return None;
        }
        j = j + 1;
        proof {
            assert(vs@.drop_last() =~= prev_vs);
            assert(buf@.subrange(start as int, cur as int) =~= buf@.subrange(
                start as int,
                prev_cur,
            ) + buf@.subrange(prev_cur, cur as int));
            assert(buf@.subrange(start as int, cur as int) =~= enc_raw_values(vs@));
            assert(sv_values(buf@, prev_cur, n0 - (j - 1)) == sv_values(buf@, cur as int, n0 - j));
        }
    }
    proof {
        assert(buf@.subrange(pos as int, cur as int) =~= buf@.subrange(pos as int, start as int)
            + buf@.subrange(start as int, cur as int));
        assert(buf@.subrange(pos as int, cur as int) =~= enc_tuple_data(vs@));
        assert(sv_tuple(buf@, pos as int) == Some(cur as int));
    }
    Some((vs, cur))
}

/// Read a Relation message's column list: a two-byte count, then that
/// many columns. Succeeds exactly when a well-formed column list stands
/// at `pos`.
fn read_columns(buf: &Vec<u8>, pos: usize) -> (r: Option<(Vec<Column>, usize)>)
    ensures
        match r {
            Some(p) => {
                let (cs, end) = p;
                &&& pos <= end <= buf@.len()
                &&& buf@.subrange(pos as int, end as int) == be_bytes(cs@.len() as int, 2)
                    + enc_columns(cs@)
                &&& sv_cols_block(buf@, pos as int) == Some(end as int)
            },
            None => sv_cols_block(buf@, pos as int) is None,
        },
{
    let (count, start) = match read_u16(buf, pos) {
        Some(x) => x,
        None => { return None; },
    };
    let ghost n0: int = count as int;
    let mut cs: Vec<Column> = Vec::new();
    let mut cur: usize = start;
    let mut j: u16 = 0;
    proof {
        assert(buf@.subrange(start as int, start as int) =~= enc_columns(cs@));
        assert(sv_cols_block(buf@, pos as int) == sv_columns(buf@, start as int, n0));
    }
    while j < count
        invariant
            j <= count,
            n0 == count as int,
            cs@.len() == j,
            start <= cur <= buf@.len(),
            start == pos + 2,
            buf@.subrange(pos as int, start as int) == be_bytes(count as int, 2),
            buf@.subrange(start as int, cur as int) == enc_columns(cs@),
            sv_cols_block(buf@, pos as int) == sv_columns(buf@, cur as int, n0 - j),
        decreases count - j,
    {
        let ghost prev_cs = cs@;
        let ghost prev_cur = cur as int;
        let (flags, c1) = match read_u8(buf, cur) {
            Some(x) => x,
            None => {
                proof {
                    assert(sv_column(buf@, prev_cur) is None);
                }
                return None;
            },
        };
        let (name, c2) = match read_cstr(buf, c1) {
            Some(x) => x,
            None => {
                proof {
                    assert(sv_column(buf@, prev_cur) is None);
                }
                return None;
            },
        };
        let (type_id, c3) = match read_u32(buf, c2) {
            Some(x) => x,
            None => {
                proof {
                    assert(sv_column(buf@, prev_cur) is None);
                }
                return None;
            },
        };
        let (tmod_raw, c4) = match read_u32(buf, c3) {
            Some(x) => x,
            None => {
                proof {
                    assert(sv_column(buf@, prev_cur) is None);
                }
                return None;
            },
        };
        proof {
            assert(((tmod_raw as i32) as u32) == tmod_raw) by (bit_vector);
        }
        let col = Column { flags, name, type_id, type_modifier: tmod_raw as i32 };
        proof {
            assert(buf@.subrange(prev_cur, c4 as int) =~= seq![flags] + buf@.subrange(
                c1 as int,
                c2 as int,
            ) + buf@.subrange(c2 as int, c3 as int) + buf@.subrange(c3 as int, c4 as int));
            assert(buf@.subrange(prev_cur, c4 as int) =~= enc_column(col));
            assert(sv_column(buf@, prev_cur) == Some(c4 as int));
        }
        cs.push(col);
        cur = c4;
        j = j + 1;
        proof {
            assert(cs@.drop_last() =~= prev_cs);
            assert(buf@.subrange(start as int, cur as int) =~= buf@.subrange(
                start as int,
                prev_cur,
            ) + buf@.subrange(prev_cur, cur as int));
            assert(buf@.subrange(start as int, cur as int) =~= enc_columns(cs@));
            assert(sv_columns(buf@, prev_cur, n0 - (j - 1)) == sv_columns(buf@, cur as int, n0 - j));
        }
    }
    proof {
        assert(buf@.subrange(pos as int, cur as int) =~= buf@.subrange(pos as int, start as int)
            + buf@.subrange(start as int, cur as int));
        assert(sv_cols_block(buf@, pos as int) == Some(cur as int));
    }
    Some((cs, cur))
}

/// Parse a whole `pgoutput` logical replication message. Succeeds
/// exactly on the well-formed payloads (`sv_msg`), and then `Some(m)`
/// only for the `m` whose encoding is the payload; an empty payload, an
/// unknown tag, a truncated field or trailing bytes are unparsable.
#[verifier::rlimit(100)]
pub fn parse_logical(buf: &Vec<u8>) -> (r: Option<RawMessage>)
    ensures
        r is Some <==> sv_msg(buf@),
        match r {
            Some(m) => buf@ == enc_msg(m),
            None => true,
        },
{
    if buf.len() == 0 {
        return None;
    }
    let tag = buf[0];
    proof {
        assert(buf@.subrange(0, 1) =~= seq![tag]);
    }
    if tag == 0x42 {
        let (final_lsn, c1) = match read_u64(buf, 1) {
            Some(x) => x,
            None => { return None; },
        };
        let (timestamp, c2) = match read_i64(buf, c1) {
            Some(x) => x,
            None => { return None; },
        };
        let (xid, c3) = match read_u32(buf, c2) {
            Some(x) => x,
            None => { return None; },
        };
        if c3 != buf.len() {
            return None;
        }
        let m = RawMessage::Begin { final_lsn, timestamp, xid };
        proof {
            assert(buf@ =~= buf@.subrange(0, 1) + buf@.subrange(1, c1 as int) + buf@.subrange(
                c1 as int,
                c2 as int,
            ) + buf@.subrange(c2 as int, c3 as int));
            assert(buf@ =~= enc_msg(m));
        }
        Some(m)
    } else if tag == 0x43 {
        let (flags, c0) = match read_u8(buf, 1) {
            Some(x) => x,
            None => { return None; },
        };
        let (commit_lsn, c1) = match read_u64(buf, c0) {
            Some(x) => x,
            None => { return None; },
        };
        let (end_lsn, c2) = match read_u64(buf, c1) {
            Some(x) => x,
            None => { return None; },
        };
        let (timestamp, c3) = match read_i64(buf, c2) {
            Some(x) => x,
            None => { return None; },
        };
        if c3 != buf.len() {
            return None;
        }
        let m = RawMessage::Commit { flags, commit_lsn, end_lsn, timestamp };
        proof {
            assert(buf@ =~= buf@.subrange(0, 2) + buf@.subrange(2, c1 as int) + buf@.subrange(
                c1 as int,
                c2 as int,
            ) + buf@.subrange(c2 as int, c3 as int));
            assert(buf@.subrange(0, 2) =~= seq![0x43u8, flags]);
            assert(buf@ =~= enc_msg(m));
        }
        Some(m)
    } else if tag == 0x4f {
        let (commit_lsn, c1) = match read_u64(buf, 1) {
            Some(x) => x,
            None => { return None; },
        };
        let (name, c2) = match read_cstr(buf, c1) {
            Some(x) => x,
            None => { return None; },
        };
        if c2 != buf.len() {
            return None;
        }
        let m = RawMessage::Origin { commit_lsn, name };
        proof {
            assert(buf@ =~= buf@.subrange(0, 1) + buf@.subrange(1, c1 as int) + buf@.subrange(
                c1 as int,
                c2 as int,
            ));
            assert(buf@ =~= enc_msg(m));
        }
        Some(m)
    } else if tag == 0x52 {
        let (rel_id, c1) = match read_u32(buf, 1) {
            Some(x) => x,
            None => { return None; },
        };
        let (namespace, c2) = match read_cstr(buf, c1) {
            Some(x) => x,
            None => { return None; },
        };
        let (name, c3) = match read_cstr(buf, c2) {
            Some(x) => x,
            None => { return None; },
        };
        let (replica_identity, c4) = match read_u8(buf, c3) {
            Some(x) => x,
            None => { return None; },
        };
        let (columns, c5) = match read_columns(buf, c4) {
            Some(x) => x,
            None => { return None; },
        };
        if c5 != buf.len() {
            return None;
        }
        let m = RawMessage::Relation { rel_id, namespace, name, replica_identity, columns };
        proof {
            assert(buf@.subrange(c3 as int, c4 as int) =~= seq![replica_identity]);
            assert(buf@ =~= buf@.subrange(0, 1) + buf@.subrange(1, c1 as int) + buf@.subrange(
                c1 as int,
                c2 as int,
            ) + buf@.subrange(c2 as int, c3 as int) + buf@.subrange(c3 as int, c4 as int)
                + buf@.subrange(c4 as int, c5 as int));
            assert(buf@ =~= enc_msg(m));
        }
        Some(m)
    } else if tag == 0x59 {
        let (id, c1) = match read_u32(buf, 1) {
            Some(x) => x,
            None => { return None; },
        };
        let (namespace, c2) = match read_cstr(buf, c1) {
            Some(x) => x,
            None => { return None; },
        };
        let (name, c3) = match read_cstr(buf, c2) {
            Some(x) => x,
            None => { return None; },
        };
        if c3 != buf.len() {
            return None;
        }
        let m = RawMessage::Type { id, namespace, name };
        proof {
            assert(buf@ =~= buf@.subrange(0, 1) + buf@.subrange(1, c1 as int) + buf@.subrange(
                c1 as int,
                c2 as int,
            ) + buf@.subrange(c2 as int, c3 as int));
            assert(buf@ =~= enc_msg(m));
        }
        Some(m)
    } else if tag == 0x49 {
        let (rel_id, c1) = match read_u32(buf, 1) {
            Some(x) => x,
            None => { return None; },
        };
        let (n_tag, c2) = match read_u8(buf, c1) {
            Some(x) => x,
            None => { return None; },
        };
        if n_tag != 0x4e {
            return None;
        }
        let (new, c3) = match read_tuple_data(buf, c2) {
            Some(x) => x,
            None => { return None; },
        };
        if c3 != buf.len() {
            return None;
        }
        let m = RawMessage::Insert { rel_id, new };
        proof {
            assert(buf@.subrange(c1 as int, c2 as int) =~= seq![0x4eu8]);
            assert(buf@ =~= buf@.subrange(0, 1) + buf@.subrange(1, c1 as int) + buf@.subrange(
                c1 as int,
                c2 as int,
            ) + buf@.subrange(c2 as int, c3 as int));
            assert(buf@ =~= enc_msg(m));
        }
        Some(m)
    } else if tag == 0x55 {
        let (rel_id, c1) = match read_u32(buf, 1) {
            Some(x) => x,
            None => { return None; },
        };
        let (k_tag, c2) = match read_u8(buf, c1) {
            Some(x) => x,
            None => { return None; },
        };
        if k_tag == 0x4b || k_tag == 0x4f {
            let (old, c3) = match read_tuple_data(buf, c2) {
                Some(x) => x,
                None => { return None; },
            };
            let (n_tag, c4) = match read_u8(buf, c3) {
                Some(x) => x,
                None => { return None; },
            };
            if n_tag != 0x4e {
                return None;
            }
            let (new, c5) = match read_tuple_data(buf, c4) {
                Some(x) => x,
                None => { return None; },
            };
            if c5 != buf.len() {
                return None;
            }
            let m = RawMessage::Update { rel_id, old_kind: k_tag, old: Some(old), new };
            proof {
                assert(buf@.subrange(c1 as int, c2 as int) =~= seq![k_tag]);
                assert(buf@.subrange(c3 as int, c4 as int) =~= seq![0x4eu8]);
                assert(buf@ =~= buf@.subrange(0, 1) + buf@.subrange(1, c1 as int) + buf@.subrange(
                    c1 as int,
                    c2 as int,
                ) + buf@.subrange(c2 as int, c3 as int) + buf@.subrange(c3 as int, c4 as int)
                    + buf@.subrange(c4 as int, c5 as int));
                assert(buf@ =~= enc_msg(m));
            }
            Some(m)
        } else if k_tag == 0x4e {
            let (new, c3) = match read_tuple_data(buf, c2) {
                Some(x) => x,
                None => { return None; },
            };
            if c3 != buf.len() {
                return None;
            }
            let m = RawMessage::Update { rel_id, old_kind: 0, old: None, new };
            proof {
                assert(buf@.subrange(c1 as int, c2 as int) =~= seq![0x4eu8]);
                assert(buf@ =~= buf@.subrange(0, 1) + buf@.subrange(1, c1 as int) + buf@.subrange(
                    c1 as int,
                    c2 as int,
                ) + buf@.subrange(c2 as int, c3 as int));
                assert(buf@ =~= enc_msg(m));
            }
            Some(m)
        } else {
            None
        }
    } else if tag == 0x44 {
        let (rel_id, c1) = match read_u32(buf, 1) {
            Some(x) => x,
            None => { return None; },
        };
        let (k_tag, c2) = match read_u8(buf, c1) {
            Some(x) => x,
            None => { return None; },
        };
        if !(k_tag == 0x4b || k_tag == 0x4f) {
            return None;
        }
        let (old, c3) = match read_tuple_data(buf, c2) {
            Some(x) => x,
            None => { return None; },
        };
        if c3 != buf.len() {
            return None;
        }
        let m = RawMessage::Delete { rel_id, old_kind: k_tag, old };
        proof {
            assert(buf@.subrange(c1 as int, c2 as int) =~= seq![k_tag]);
            assert(buf@ =~= buf@.subrange(0, 1) + buf@.subrange(1, c1 as int) + buf@.subrange(
                c1 as int,
                c2 as int,
            ) + buf@.subrange(c2 as int, c3 as int));
            assert(buf@ =~= enc_msg(m));
        }
        Some(m)
    } else if tag == 0x54 {
        let (count, c1) = match read_u32(buf, 1) {
            Some(x) => x,
            None => { return None; },
        };
        let (options, c2) = match read_u8(buf, c1) {
            Some(x) => x,
            None => { return None; },
        };
        let mut rel_ids: Vec<u32> = Vec::new();
        let mut cur: usize = c2;
        let mut j: u32 = 0;
        proof {
            assert(buf@.subrange(c2 as int, c2 as int) =~= enc_rel_ids(rel_ids@));
        }
        while j < count
            invariant
                j <= count,
                rel_ids@.len() == j,
                c2 == 6,
                6 <= buf@.len(),
                cur as int == 6 + 4 * j,
                cur <= buf@.len(),
                count as int == be_val(buf@.subrange(1, 5)),
                buf@[0] == 0x54,
                buf@.subrange(c2 as int, cur as int) == enc_rel_ids(rel_ids@),
            decreases count - j,
        {
            let ghost prev_ids = rel_ids@;
            let ghost prev_cur = cur as int;
            let (rid, c_next) = match read_u32(buf, cur) {
                Some(x) => x,
                None => {
                    proof {
                        assert(buf@.len() < 6 + 4 * (j + 1));
                        assert(6 + 4 * (j + 1) <= 6 + 4 * (count as int));
                        assert(!sv_msg(buf@));
                    }
                    return None;
                },
            };
            rel_ids.push(rid);
            cur = c_next;
            j = j + 1;
            proof {
                assert(rel_ids@.drop_last() =~= prev_ids);
                assert(buf@.subrange(c2 as int, cur as int) =~= buf@.subrange(
                    c2 as int,
                    prev_cur,
                ) + buf@.subrange(prev_cur, cur as int));
                assert(buf@.subrange(c2 as int, cur as int) =~= enc_rel_ids(rel_ids@));
            }
        }
        if cur != buf.len() {
            return None;
        }
        let m = RawMessage::Truncate { options, rel_ids };
        proof {
            assert(buf@.subrange(c1 as int, c2 as int) =~= seq![options]);
            assert(buf@ =~= buf@.subrange(0, 1) + buf@.subrange(1, c1 as int) + buf@.subrange(
                c1 as int,
                c2 as int,
            ) + buf@.subrange(c2 as int, cur as int));
            assert(buf@ =~= enc_msg(m));
        }
        Some(m)
    } else {
        None
    }
}

/// One frame of the replication copy stream: WAL data with its envelope,
/// or a primary keepalive.
#[derive(Debug)]
pub enum Frame {
    XLogData { wal_start: u64, wal_end: u64, timestamp: i64, payload: Vec<u8> },
    Keepalive { wal_end: u64, timestamp: i64, reply: u8 },
}

/// The encoding of a stream frame: `w` for WAL data, `k` for keepalive.
pub open spec fn enc_frame(f: Frame) -> Seq<u8> {
    match f {
        Frame::XLogData { wal_start, wal_end, timestamp, payload } => seq![0x77u8] + be_bytes(
            wal_start as int,
            8,
        ) + be_bytes(wal_end as int, 8) + be_bytes((timestamp as u64) as int, 8) + payload@,
        Frame::Keepalive { wal_end, timestamp, reply } => seq![0x6bu8] + be_bytes(
            wal_end as int,
            8,
        ) + be_bytes((timestamp as u64) as int, 8) + seq![reply],
    }
}

/// Split a received copy-stream frame into its envelope and payload.
/// Succeeds exactly on the well-formed frames (`sv_frame`), and then
/// `Some(f)` only for the `f` whose encoding is the bytes.
pub fn parse_frame(buf: &Vec<u8>) -> (r: Option<Frame>)
    ensures
        r is Some <==> sv_frame(buf@),
        match r {
            Some(f) => buf@ == enc_frame(f),
            None => true,
        },
{
    if buf.len() == 0 {
        return None;
    }
    let tag = buf[0];
    proof {
        assert(buf@.subrange(0, 1) =~= seq![tag]);
    }
    if tag == 0x77 {
        let (wal_start, c1) = match read_u64(buf, 1) {
            Some(x) => x,
            None => { return None; },
        };
        let (wal_end, c2) = match read_u64(buf, c1) {
            Some(x) => x,
            None => { return None; },
        };
        let (timestamp, c3) = match read_i64(buf, c2) {
            Some(x) => x,
            None => { return None; },
        };
        let (payload, c4) = match read_bytes(buf, c3, buf.len() - c3) {
            Some(x) => x,
            None => { return None; },
        };
        let f = Frame::XLogData { wal_start, wal_end, timestamp, payload };
        proof {
            assert(buf@ =~= buf@.subrange(0, 1) + buf@.subrange(1, c1 as int) + buf@.subrange(
                c1 as int,
                c2 as int,
            ) + buf@.subrange(c2 as int, c3 as int) + buf@.subrange(c3 as int, c4 as int));
            assert(buf@ =~= enc_frame(f));
        }
        Some(f)
    } else if tag == 0x6b {
        let (wal_end, c1) = match read_u64(buf, 1) {
            Some(x) => x,
            None => { return None; },
        };
        let (timestamp, c2) = match read_i64(buf, c1) {
            Some(x) => x,
            None => { return None; },
        };
        let (reply, c3) = match read_u8(buf, c2) {
            Some(x) => x,
            None => { return None; },
        };
        if c3 != buf.len() {
            return None;
        }
        let f = Frame::Keepalive { wal_end, timestamp, reply };
        proof {
            assert(buf@.subrange(c2 as int, c3 as int) =~= seq![reply]);
            assert(buf@ =~= buf@.subrange(0, 1) + buf@.subrange(1, c1 as int) + buf@.subrange(
                c1 as int,
                c2 as int,
            ) + buf@.subrange(c2 as int, c3 as int));
            assert(buf@ =~= enc_frame(f));
        }
        Some(f)
    } else {
        None
    }
}

} // verus!
