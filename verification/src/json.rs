//! The JSON wire encoding of domain events: the one persisted and
//! transmitted format this connector defines.
//!
//! A document has the shape `{"lsn":N,"timestamp":T,"message":{tag:
//! fields}}`. `json_event` is the format's definition; `encode_event`
//! produces exactly it. The resume locator decodes a stored record by
//! reconstructing the event, re-encoding it and comparing the bytes, so
//! only a complete canonical document — never a lookalike prefix — is
//! accepted, and the position read back is the event's own.

use vstd::prelude::*;
use crate::model::{Column, DomainEvent, LogicalMessage, Tuple, Value};
use crate::numfmt::{dec_seq, dec_seq_signed, dec_val, hex_digit, is_dec_digit, read_dec_u64,
    lemma_dec_seq_digits, lemma_dec_round_trip};
use crate::convert::digits_end;

verus! {

/// The byte sequence `{\"lsn\":`.
pub open spec fn doc_open() -> Seq<u8> {
    seq![0x7bu8, 0x22, 0x6c, 0x73, 0x6e, 0x22, 0x3a]
}

fn push_doc_open(out: &mut Vec<u8>)
    ensures
        final(out)@ == old(out)@ + doc_open(),
{
    out.push(0x7b);
    out.push(0x22);
    out.push(0x6c);
    out.push(0x73);
    out.push(0x6e);
    out.push(0x22);
    out.push(0x3a);
    proof {
        assert(out@ =~= old(out)@ + doc_open());
    }
}

/// The byte sequence `,\"timestamp\":`.
pub open spec fn doc_ts() -> Seq<u8> {
    seq![0x2cu8, 0x22, 0x74, 0x69, 0x6d, 0x65, 0x73, 0x74, 0x61, 0x6d, 0x70, 0x22, 0x3a]
}

fn push_doc_ts(out: &mut Vec<u8>)
    ensures
        final(out)@ == old(out)@ + doc_ts(),
{
    out.push(0x2c);
    out.push(0x22);
    out.push(0x74);
    out.push(0x69);
    out.push(0x6d);
    out.push(0x65);
    out.push(0x73);
    out.push(0x74);
    out.push(0x61);
    out.push(0x6d);
    out.push(0x70);
    out.push(0x22);
    out.push(0x3a);
    proof {
        assert(out@ =~= old(out)@ + doc_ts());
    }
}

/// The byte sequence `,\"message\":`.
pub open spec fn doc_msg() -> Seq<u8> {
    seq![0x2cu8, 0x22, 0x6d, 0x65, 0x73, 0x73, 0x61, 0x67, 0x65, 0x22, 0x3a]
}

fn push_doc_msg(out: &mut Vec<u8>)
    ensures
        final(out)@ == old(out)@ + doc_msg(),
{
    out.push(0x2c);
    out.push(0x22);
    out.push(0x6d);
    out.push(0x65);
    out.push(0x73);
    out.push(0x73);
    out.push(0x61);
    out.push(0x67);
    out.push(0x65);
    out.push(0x22);
    out.push(0x3a);
    proof {
        assert(out@ =~= old(out)@ + doc_msg());
    }
}

/// The byte sequence `{\"begin\":{\"xid\":`.
pub open spec fn begin_open() -> Seq<u8> {
    seq![0x7bu8, 0x22, 0x62, 0x65, 0x67, 0x69, 0x6e, 0x22, 0x3a, 0x7b, 0x22, 0x78, 0x69, 0x64, 0x22, 0x3a]
}

fn push_begin_open(out: &mut Vec<u8>)
    ensures
        final(out)@ == old(out)@ + begin_open(),
{
    out.push(0x7b);
    out.push(0x22);
    out.push(0x62);
    out.push(0x65);
    out.push(0x67);
    out.push(0x69);
    out.push(0x6e);
    out.push(0x22);
    out.push(0x3a);
    out.push(0x7b);
    out.push(0x22);
    out.push(0x78);
    out.push(0x69);
    out.push(0x64);
    out.push(0x22);
    out.push(0x3a);
    proof {
        assert(out@ =~= old(out)@ + begin_open());
    }
}

/// The byte sequence `,\"final_lsn\":`.
pub open spec fn begin_final() -> Seq<u8> {
    seq![0x2cu8, 0x22, 0x66, 0x69, 0x6e, 0x61, 0x6c, 0x5f, 0x6c, 0x73, 0x6e, 0x22, 0x3a]
}

fn push_begin_final(out: &mut Vec<u8>)
    ensures
        final(out)@ == old(out)@ + begin_final(),
{
    out.push(0x2c);
    out.push(0x22);
    out.push(0x66);
    out.push(0x69);
    out.push(0x6e);
    out.push(0x61);
    out.push(0x6c);
    out.push(0x5f);
    out.push(0x6c);
    out.push(0x73);
    out.push(0x6e);
    out.push(0x22);
    out.push(0x3a);
    proof {
        assert(out@ =~= old(out)@ + begin_final());
    }
}

/// The byte sequence `{\"commit\":{\"lsn\":`.
pub open spec fn commit_open() -> Seq<u8> {
    seq![0x7bu8, 0x22, 0x63, 0x6f, 0x6d, 0x6d, 0x69, 0x74, 0x22, 0x3a, 0x7b, 0x22, 0x6c, 0x73, 0x6e, 0x22, 0x3a]
}

fn push_commit_open(out: &mut Vec<u8>)
    ensures
        final(out)@ == old(out)@ + commit_open(),
{
    out.push(0x7b);
    out.push(0x22);
    out.push(0x63);
    out.push(0x6f);
    out.push(0x6d);
    out.push(0x6d);
    out.push(0x69);
    out.push(0x74);
    out.push(0x22);
    out.push(0x3a);
    out.push(0x7b);
    out.push(0x22);
    out.push(0x6c);
    out.push(0x73);
    out.push(0x6e);
    out.push(0x22);
    out.push(0x3a);
    proof {
        assert(out@ =~= old(out)@ + commit_open());
    }
}

/// The byte sequence `,\"end_lsn\":`.
pub open spec fn commit_end() -> Seq<u8> {
    seq![0x2cu8, 0x22, 0x65, 0x6e, 0x64, 0x5f, 0x6c, 0x73, 0x6e, 0x22, 0x3a]
}

fn push_commit_end(out: &mut Vec<u8>)
    ensures
        final(out)@ == old(out)@ + commit_end(),
{
    out.push(0x2c);
    out.push(0x22);
    out.push(0x65);
    out.push(0x6e);
    out.push(0x64);
    out.push(0x5f);
    out.push(0x6c);
    out.push(0x73);
    out.push(0x6e);
    out.push(0x22);
    out.push(0x3a);
    proof {
        assert(out@ =~= old(out)@ + commit_end());
    }
}

/// The byte sequence `{\"origin\":{\"commit_lsn\":`.
pub open spec fn origin_open() -> Seq<u8> {
    seq![0x7bu8, 0x22, 0x6f, 0x72, 0x69, 0x67, 0x69, 0x6e, 0x22, 0x3a, 0x7b, 0x22, 0x63, 0x6f, 0x6d, 0x6d, 0x69, 0x74, 0x5f, 0x6c, 0x73, 0x6e, 0x22, 0x3a]
}

fn push_origin_open(out: &mut Vec<u8>)
    ensures
        final(out)@ == old(out)@ + origin_open(),
{
    out.push(0x7b);
    out.push(0x22);
    out.push(0x6f);
    out.push(0x72);
    out.push(0x69);
    out.push(0x67);
    out.push(0x69);
    out.push(0x6e);
    out.push(0x22);
    out.push(0x3a);
    out.push(0x7b);
    out.push(0x22);
    out.push(0x63);
    out.push(0x6f);
    out.push(0x6d);
    out.push(0x6d);
    out.push(0x69);
    out.push(0x74);
    out.push(0x5f);
    out.push(0x6c);
    out.push(0x73);
    out.push(0x6e);
    out.push(0x22);
    out.push(0x3a);
    proof {
        assert(out@ =~= old(out)@ + origin_open());
    }
}

/// The byte sequence `,\"name\":`.
pub open spec fn key_name() -> Seq<u8> {
    seq![0x2cu8, 0x22, 0x6e, 0x61, 0x6d, 0x65, 0x22, 0x3a]
}

fn push_key_name(out: &mut Vec<u8>)
    ensures
        final(out)@ == old(out)@ + key_name(),
{
    out.push(0x2c);
    out.push(0x22);
    out.push(0x6e);
    out.push(0x61);
    out.push(0x6d);
    out.push(0x65);
    out.push(0x22);
    out.push(0x3a);
    proof {
        assert(out@ =~= old(out)@ + key_name());
    }
}

/// The byte sequence `{\"relation\":{\"rel_id\":`.
pub open spec fn relation_open() -> Seq<u8> {
    seq![0x7bu8, 0x22, 0x72, 0x65, 0x6c, 0x61, 0x74, 0x69, 0x6f, 0x6e, 0x22, 0x3a, 0x7b, 0x22, 0x72, 0x65, 0x6c, 0x5f, 0x69, 0x64, 0x22, 0x3a]
}

fn push_relation_open(out: &mut Vec<u8>)
    ensures
        final(out)@ == old(out)@ + relation_open(),
{
    out.push(0x7b);
    out.push(0x22);
    out.push(0x72);
    out.push(0x65);
    out.push(0x6c);
    out.push(0x61);
    out.push(0x74);
    out.push(0x69);
    out.push(0x6f);
    out.push(0x6e);
    out.push(0x22);
    out.push(0x3a);
    out.push(0x7b);
    out.push(0x22);
    out.push(0x72);
    out.push(0x65);
    out.push(0x6c);
    out.push(0x5f);
    out.push(0x69);
    out.push(0x64);
    out.push(0x22);
    out.push(0x3a);
    proof {
        assert(out@ =~= old(out)@ + relation_open());
    }
}

/// The byte sequence `,\"namespace\":`.
pub open spec fn key_namespace() -> Seq<u8> {
    seq![0x2cu8, 0x22, 0x6e, 0x61, 0x6d, 0x65, 0x73, 0x70, 0x61, 0x63, 0x65, 0x22, 0x3a]
}

fn push_key_namespace(out: &mut Vec<u8>)
    ensures
        final(out)@ == old(out)@ + key_namespace(),
{
    out.push(0x2c);
    out.push(0x22);
    out.push(0x6e);
    out.push(0x61);
    out.push(0x6d);
    out.push(0x65);
    out.push(0x73);
    out.push(0x70);
    out.push(0x61);
    out.push(0x63);
    out.push(0x65);
    out.push(0x22);
    out.push(0x3a);
    proof {
        assert(out@ =~= old(out)@ + key_namespace());
    }
}

/// The byte sequence `,\"columns\":[`.
pub open spec fn key_columns() -> Seq<u8> {
    seq![0x2cu8, 0x22, 0x63, 0x6f, 0x6c, 0x75, 0x6d, 0x6e, 0x73, 0x22, 0x3a, 0x5b]
}

fn push_key_columns(out: &mut Vec<u8>)
    ensures
        final(out)@ == old(out)@ + key_columns(),
{
    out.push(0x2c);
    out.push(0x22);
    out.push(0x63);
    out.push(0x6f);
    out.push(0x6c);
    out.push(0x75);
    out.push(0x6d);
    out.push(0x6e);
    out.push(0x73);
    out.push(0x22);
    out.push(0x3a);
    out.push(0x5b);
    proof {
        assert(out@ =~= old(out)@ + key_columns());
    }
}

/// The byte sequence `{\"flags\":`.
pub open spec fn col_open() -> Seq<u8> {
    seq![0x7bu8, 0x22, 0x66, 0x6c, 0x61, 0x67, 0x73, 0x22, 0x3a]
}

fn push_col_open(out: &mut Vec<u8>)
    ensures
        final(out)@ == old(out)@ + col_open(),
{
    out.push(0x7b);
    out.push(0x22);
    out.push(0x66);
    out.push(0x6c);
    out.push(0x61);
    out.push(0x67);
    out.push(0x73);
    out.push(0x22);
    out.push(0x3a);
    proof {
        assert(out@ =~= old(out)@ + col_open());
    }
}

/// The byte sequence `,\"type_id\":`.
pub open spec fn key_type_id() -> Seq<u8> {
    seq![0x2cu8, 0x22, 0x74, 0x79, 0x70, 0x65, 0x5f, 0x69, 0x64, 0x22, 0x3a]
}

fn push_key_type_id(out: &mut Vec<u8>)
    ensures
        final(out)@ == old(out)@ + key_type_id(),
{
    out.push(0x2c);
    out.push(0x22);
    out.push(0x74);
    out.push(0x79);
    out.push(0x70);
    out.push(0x65);
    out.push(0x5f);
    out.push(0x69);
    out.push(0x64);
    out.push(0x22);
    out.push(0x3a);
    proof {
        assert(out@ =~= old(out)@ + key_type_id());
    }
}

/// The byte sequence `,\"type_modifier\":`.
pub open spec fn key_type_modifier() -> Seq<u8> {
    seq![0x2cu8, 0x22, 0x74, 0x79, 0x70, 0x65, 0x5f, 0x6d, 0x6f, 0x64, 0x69, 0x66, 0x69, 0x65, 0x72, 0x22, 0x3a]
}

fn push_key_type_modifier(out: &mut Vec<u8>)
    ensures
        final(out)@ == old(out)@ + key_type_modifier(),
{
    out.push(0x2c);
    out.push(0x22);
    out.push(0x74);
    out.push(0x79);
    out.push(0x70);
    out.push(0x65);
    out.push(0x5f);
    out.push(0x6d);
    out.push(0x6f);
    out.push(0x64);
    out.push(0x69);
    out.push(0x66);
    out.push(0x69);
    out.push(0x65);
    out.push(0x72);
    out.push(0x22);
    out.push(0x3a);
    proof {
        assert(out@ =~= old(out)@ + key_type_modifier());
    }
}

/// The byte sequence `{\"type\":{\"id\":`.
pub open spec fn type_open() -> Seq<u8> {
    seq![0x7bu8, 0x22, 0x74, 0x79, 0x70, 0x65, 0x22, 0x3a, 0x7b, 0x22, 0x69, 0x64, 0x22, 0x3a]
}

fn push_type_open(out: &mut Vec<u8>)
    ensures
        final(out)@ == old(out)@ + type_open(),
{
    out.push(0x7b);
    out.push(0x22);
    out.push(0x74);
    out.push(0x79);
    out.push(0x70);
    out.push(0x65);
    out.push(0x22);
    out.push(0x3a);
    out.push(0x7b);
    out.push(0x22);
    out.push(0x69);
    out.push(0x64);
    out.push(0x22);
    out.push(0x3a);
    proof {
        assert(out@ =~= old(out)@ + type_open());
    }
}

/// The byte sequence `{\"insert\":{\"rel_id\":`.
pub open spec fn insert_open() -> Seq<u8> {
    seq![0x7bu8, 0x22, 0x69, 0x6e, 0x73, 0x65, 0x72, 0x74, 0x22, 0x3a, 0x7b, 0x22, 0x72, 0x65, 0x6c, 0x5f, 0x69, 0x64, 0x22, 0x3a]
}

fn push_insert_open(out: &mut Vec<u8>)
    ensures
        final(out)@ == old(out)@ + insert_open(),
{
    out.push(0x7b);
    out.push(0x22);
    out.push(0x69);
    out.push(0x6e);
    out.push(0x73);
    out.push(0x65);
    out.push(0x72);
    out.push(0x74);
    out.push(0x22);
    out.push(0x3a);
    out.push(0x7b);
    out.push(0x22);
    out.push(0x72);
    out.push(0x65);
    out.push(0x6c);
    out.push(0x5f);
    out.push(0x69);
    out.push(0x64);
    out.push(0x22);
    out.push(0x3a);
    proof {
        assert(out@ =~= old(out)@ + insert_open());
    }
}

/// The byte sequence `,\"new\":`.
pub open spec fn key_new() -> Seq<u8> {
    seq![0x2cu8, 0x22, 0x6e, 0x65, 0x77, 0x22, 0x3a]
}

fn push_key_new(out: &mut Vec<u8>)
    ensures
        final(out)@ == old(out)@ + key_new(),
{
    out.push(0x2c);
    out.push(0x22);
    out.push(0x6e);
    out.push(0x65);
    out.push(0x77);
    out.push(0x22);
    out.push(0x3a);
    proof {
        assert(out@ =~= old(out)@ + key_new());
    }
}

/// The byte sequence `{\"update\":{\"rel_id\":`.
pub open spec fn update_open() -> Seq<u8> {
    seq![0x7bu8, 0x22, 0x75, 0x70, 0x64, 0x61, 0x74, 0x65, 0x22, 0x3a, 0x7b, 0x22, 0x72, 0x65, 0x6c, 0x5f, 0x69, 0x64, 0x22, 0x3a]
}

fn push_update_open(out: &mut Vec<u8>)
    ensures
        final(out)@ == old(out)@ + update_open(),
{
    out.push(0x7b);
    out.push(0x22);
    out.push(0x75);
    out.push(0x70);
    out.push(0x64);
    out.push(0x61);
    out.push(0x74);
    out.push(0x65);
    out.push(0x22);
    out.push(0x3a);
    out.push(0x7b);
    out.push(0x22);
    out.push(0x72);
    out.push(0x65);
    out.push(0x6c);
    out.push(0x5f);
    out.push(0x69);
    out.push(0x64);
    out.push(0x22);
    out.push(0x3a);
    proof {
        assert(out@ =~= old(out)@ + update_open());
    }
}

/// The byte sequence `,\"old\":`.
pub open spec fn key_old() -> Seq<u8> {
    seq![0x2cu8, 0x22, 0x6f, 0x6c, 0x64, 0x22, 0x3a]
}

fn push_key_old(out: &mut Vec<u8>)
    ensures
        final(out)@ == old(out)@ + key_old(),
{
    out.push(0x2c);
    out.push(0x22);
    out.push(0x6f);
    out.push(0x6c);
    out.push(0x64);
    out.push(0x22);
    out.push(0x3a);
    proof {
        assert(out@ =~= old(out)@ + key_old());
    }
}

/// The byte sequence `{\"delete\":{\"rel_id\":`.
pub open spec fn delete_open() -> Seq<u8> {
    seq![0x7bu8, 0x22, 0x64, 0x65, 0x6c, 0x65, 0x74, 0x65, 0x22, 0x3a, 0x7b, 0x22, 0x72, 0x65, 0x6c, 0x5f, 0x69, 0x64, 0x22, 0x3a]
}

fn push_delete_open(out: &mut Vec<u8>)
    ensures
        final(out)@ == old(out)@ + delete_open(),
{
    out.push(0x7b);
    out.push(0x22);
    out.push(0x64);
    out.push(0x65);
    out.push(0x6c);
    out.push(0x65);
    out.push(0x74);
    out.push(0x65);
    out.push(0x22);
    out.push(0x3a);
    out.push(0x7b);
    out.push(0x22);
    out.push(0x72);
    out.push(0x65);
    out.push(0x6c);
    out.push(0x5f);
    out.push(0x69);
    out.push(0x64);
    out.push(0x22);
    out.push(0x3a);
    proof {
        assert(out@ =~= old(out)@ + delete_open());
    }
}

/// The byte sequence `{\"truncate\":{\"options\":`.
pub open spec fn truncate_open() -> Seq<u8> {
    seq![0x7bu8, 0x22, 0x74, 0x72, 0x75, 0x6e, 0x63, 0x61, 0x74, 0x65, 0x22, 0x3a, 0x7b, 0x22, 0x6f, 0x70, 0x74, 0x69, 0x6f, 0x6e, 0x73, 0x22, 0x3a]
}

fn push_truncate_open(out: &mut Vec<u8>)
    ensures
        final(out)@ == old(out)@ + truncate_open(),
{
    out.push(0x7b);
    out.push(0x22);
    out.push(0x74);
    out.push(0x72);
    out.push(0x75);
    out.push(0x6e);
    out.push(0x63);
    out.push(0x61);
    out.push(0x74);
    out.push(0x65);
    out.push(0x22);
    out.push(0x3a);
    out.push(0x7b);
    out.push(0x22);
    out.push(0x6f);
    out.push(0x70);
    out.push(0x74);
    out.push(0x69);
    out.push(0x6f);
    out.push(0x6e);
    out.push(0x73);
    out.push(0x22);
    out.push(0x3a);
    proof {
        assert(out@ =~= old(out)@ + truncate_open());
    }
}

/// The byte sequence `,\"rel_ids\":[`.
pub open spec fn key_rel_ids() -> Seq<u8> {
    seq![0x2cu8, 0x22, 0x72, 0x65, 0x6c, 0x5f, 0x69, 0x64, 0x73, 0x22, 0x3a, 0x5b]
}

fn push_key_rel_ids(out: &mut Vec<u8>)
    ensures
        final(out)@ == old(out)@ + key_rel_ids(),
{
    out.push(0x2c);
    out.push(0x22);
    out.push(0x72);
    out.push(0x65);
    out.push(0x6c);
    out.push(0x5f);
    out.push(0x69);
    out.push(0x64);
    out.push(0x73);
    out.push(0x22);
    out.push(0x3a);
    out.push(0x5b);
    proof {
        assert(out@ =~= old(out)@ + key_rel_ids());
    }
}

/// The byte sequence `null`.
pub open spec fn lit_null() -> Seq<u8> {
    seq![0x6eu8, 0x75, 0x6c, 0x6c]
}

fn push_lit_null(out: &mut Vec<u8>)
    ensures
        final(out)@ == old(out)@ + lit_null(),
{
    out.push(0x6e);
    out.push(0x75);
    out.push(0x6c);
    out.push(0x6c);
    proof {
        assert(out@ =~= old(out)@ + lit_null());
    }
}

/// The byte sequence `true`.
pub open spec fn lit_true() -> Seq<u8> {
    seq![0x74u8, 0x72, 0x75, 0x65]
}

fn push_lit_true(out: &mut Vec<u8>)
    ensures
        final(out)@ == old(out)@ + lit_true(),
{
    out.push(0x74);
    out.push(0x72);
    out.push(0x75);
    out.push(0x65);
    proof {
        assert(out@ =~= old(out)@ + lit_true());
    }
}

/// The byte sequence `false`.
pub open spec fn lit_false() -> Seq<u8> {
    seq![0x66u8, 0x61, 0x6c, 0x73, 0x65]
}

fn push_lit_false(out: &mut Vec<u8>)
    ensures
        final(out)@ == old(out)@ + lit_false(),
{
    out.push(0x66);
    out.push(0x61);
    out.push(0x6c);
    out.push(0x73);
    out.push(0x65);
    proof {
        assert(out@ =~= old(out)@ + lit_false());
    }
}

/// The byte sequence `{\"unchanged\":true}`.
pub open spec fn lit_unchanged() -> Seq<u8> {
    seq![0x7bu8, 0x22, 0x75, 0x6e, 0x63, 0x68, 0x61, 0x6e, 0x67, 0x65, 0x64, 0x22, 0x3a, 0x74, 0x72, 0x75, 0x65, 0x7d]
}

fn push_lit_unchanged(out: &mut Vec<u8>)
    ensures
        final(out)@ == old(out)@ + lit_unchanged(),
{
    out.push(0x7b);
    out.push(0x22);
    out.push(0x75);
    out.push(0x6e);
    out.push(0x63);
    out.push(0x68);
    out.push(0x61);
    out.push(0x6e);
    out.push(0x67);
    out.push(0x65);
    out.push(0x64);
    out.push(0x22);
    out.push(0x3a);
    out.push(0x74);
    out.push(0x72);
    out.push(0x75);
    out.push(0x65);
    out.push(0x7d);
    proof {
        assert(out@ =~= old(out)@ + lit_unchanged());
    }
}

/// The escape of one byte inside a JSON string: quote and backslash are
/// escaped, control bytes become `\u00XX`, everything else (UTF-8
/// continuation bytes included) passes through.
pub open spec fn jesc_byte(b: u8) -> Seq<u8> {
    if b == 0x22 {
        seq![0x5cu8, 0x22]
    } else if b == 0x5c {
        seq![0x5cu8, 0x5c]
    } else if b < 0x20 {
        seq![0x5cu8, 0x75, 0x30, 0x30, hex_digit(b as int / 16), hex_digit(b as int % 16)]
    } else {
        seq![b]
    }
}

pub open spec fn jesc(s: Seq<u8>) -> Seq<u8>
    decreases s.len(),
{
    if s.len() == 0 {
        Seq::empty()
    } else {
        jesc(s.drop_last()) + jesc_byte(s.last())
    }
}

/// A JSON string: quoted, escaped bytes.
pub open spec fn jstr(s: Seq<u8>) -> Seq<u8> {
    seq![0x22u8] + jesc(s) + seq![0x22u8]
}

/// The elements of a JSON array of byte values, comma separated.
pub open spec fn json_byte_items(s: Seq<u8>) -> Seq<u8>
    decreases s.len(),
{
    if s.len() == 0 {
        Seq::empty()
    } else if s.len() == 1 {
        dec_seq(s[0] as nat)
    } else {
        json_byte_items(s.drop_last()) + seq![0x2cu8] + dec_seq(s.last() as nat)
    }
}

/// One decoded column value as JSON. The unchanged marker is an object,
/// deliberately distinct from `null`; a float is emitted in its
/// validated textual form; binary data becomes an array of byte values.
pub open spec fn json_value(v: Value) -> Seq<u8> {
    match v {
        Value::Null => lit_null(),
        Value::Unchanged => lit_unchanged(),
        Value::Bool(b) => if b {
            lit_true()
        } else {
            lit_false()
        },
        Value::Int(n) => dec_seq_signed(n as int),
        Value::Float(t) => t@,
        Value::Text(t) => jstr(t@),
        Value::Binary(t) => seq![0x5bu8] + json_byte_items(t@) + seq![0x5du8],
    }
}

/// The members of a tuple object, comma separated: `"name":value`.
pub open spec fn json_tuple_entries(entries: Seq<(Vec<u8>, Value)>) -> Seq<u8>
    decreases entries.len(),
{
    if entries.len() == 0 {
        Seq::empty()
    } else if entries.len() == 1 {
        jstr(entries[0].0@) + seq![0x3au8] + json_value(entries[0].1)
    } else {
        json_tuple_entries(entries.drop_last()) + seq![0x2cu8] + jstr(entries.last().0@) + seq![
            0x3au8,
        ] + json_value(entries.last().1)
    }
}

/// A tuple as a JSON object.
pub open spec fn json_tuple(t: Tuple) -> Seq<u8> {
    seq![0x7bu8] + json_tuple_entries(t.cols@) + seq![0x7du8]
}

/// One column description as JSON.
pub open spec fn json_column(c: Column) -> Seq<u8> {
    col_open() + dec_seq(c.flags as nat) + key_name() + jstr(c.name@) + key_type_id() + dec_seq(
        c.type_id as nat,
    ) + key_type_modifier() + dec_seq_signed(c.type_modifier as int) + seq![0x7du8]
}

/// The elements of a column array, comma separated.
pub open spec fn json_columns(cs: Seq<Column>) -> Seq<u8>
    decreases cs.len(),
{
    if cs.len() == 0 {
        Seq::empty()
    } else if cs.len() == 1 {
        json_column(cs[0])
    } else {
        json_columns(cs.drop_last()) + seq![0x2cu8] + json_column(cs.last())
    }
}

/// The elements of a relation id array, comma separated.
pub open spec fn json_rel_ids(ids: Seq<u32>) -> Seq<u8>
    decreases ids.len(),
{
    if ids.len() == 0 {
        Seq::empty()
    } else if ids.len() == 1 {
        dec_seq(ids[0] as nat)
    } else {
        json_rel_ids(ids.drop_last()) + seq![0x2cu8] + dec_seq(ids.last() as nat)
    }
}

/// The message member of a document: `{tag:{fields}}`.
pub open spec fn json_message(m: LogicalMessage) -> Seq<u8> {
    match m {
        LogicalMessage::Begin { xid, final_lsn } => begin_open() + dec_seq(xid as nat)
            + begin_final() + dec_seq(final_lsn as nat) + seq![0x7du8, 0x7d],
        LogicalMessage::Commit { lsn, end_lsn } => commit_open() + dec_seq(lsn as nat)
            + commit_end() + dec_seq(end_lsn as nat) + seq![0x7du8, 0x7d],
        LogicalMessage::Origin { commit_lsn, name } => origin_open() + dec_seq(commit_lsn as nat)
            + key_name() + jstr(name@) + seq![0x7du8, 0x7d],
        LogicalMessage::Relation { rel_id, namespace, name, columns } => relation_open() + dec_seq(
            rel_id as nat,
        ) + key_namespace() + jstr(namespace@) + key_name() + jstr(name@) + key_columns()
            + json_columns(columns@) + seq![0x5du8, 0x7d, 0x7d],
        LogicalMessage::Type { id, namespace, name } => type_open() + dec_seq(id as nat)
            + key_namespace() + jstr(namespace@) + key_name() + jstr(name@) + seq![0x7du8, 0x7d],
        LogicalMessage::Insert { rel_id, new } => insert_open() + dec_seq(rel_id as nat)
            + key_new() + json_tuple(new) + seq![0x7du8, 0x7d],
        LogicalMessage::Update { rel_id, old, new } => update_open() + dec_seq(rel_id as nat)
            + key_old() + (match old {
            Some(t) => json_tuple(t),
            None => lit_null(),
        }) + key_new() + json_tuple(new) + seq![0x7du8, 0x7d],
        LogicalMessage::Delete { rel_id, old } => delete_open() + dec_seq(rel_id as nat)
            + key_old() + json_tuple(old) + seq![0x7du8, 0x7d],
        LogicalMessage::Truncate { options, rel_ids } => truncate_open() + dec_seq(options as nat)
            + key_rel_ids() + json_rel_ids(rel_ids@) + seq![0x5du8, 0x7d, 0x7d],
    }
}

/// The whole document.
pub open spec fn json_event(e: DomainEvent) -> Seq<u8> {
    doc_open() + dec_seq(e.lsn as nat) + doc_ts() + dec_seq_signed(e.timestamp as int) + doc_msg()
        + json_message(e.message) + seq![0x7du8]
}

/// Append a byte string.
fn push_bytes(out: &mut Vec<u8>, s: &Vec<u8>)
    ensures
        final(out)@ == old(out)@ + s@,
{
    let ghost base = out@;
    let mut i: usize = 0;
    while i < s.len()
        invariant
            i <= s@.len(),
            out@ == base + s@.take(i as int),
        decreases s@.len() - i,
    {
        proof {
            assert(s@.len() == s.len());
        }
        out.push(s[i]);
        i = i + 1;
        proof {
            assert(out@ =~= base + s@.take(i as int));
        }
    }
    proof {
        assert(base + s@.take(s@.len() as int) =~= base + s@);
    }
}

/// Append the escape of one byte.
fn push_jesc_byte(out: &mut Vec<u8>, b: u8)
    ensures
        final(out)@ == old(out)@ + jesc_byte(b),
{
    if b == 0x22 {
        out.push(0x5c);
        out.push(0x22);
        proof {
            assert(out@ =~= old(out)@ + jesc_byte(b));
        }
    } else if b == 0x5c {
        out.push(0x5c);
        out.push(0x5c);
        proof {
            assert(out@ =~= old(out)@ + jesc_byte(b));
        }
    } else if b < 0x20 {
        out.push(0x5c);
        out.push(0x75);
        out.push(0x30);
        out.push(0x30);
        let hi = b / 16;
        out.push(0x30 + hi);
        let lo = b % 16;
        let d: u8 = if lo < 10 {
            0x30 + lo
        } else {
            0x41 + (lo - 10)
        };
        out.push(d);
        proof {
            assert(out@ =~= old(out)@ + jesc_byte(b));
        }
    } else {
        out.push(b);
        proof {
            assert(out@ =~= old(out)@ + jesc_byte(b));
        }
    }
}

/// Append the escaped form of a byte string.
fn push_jesc(out: &mut Vec<u8>, s: &Vec<u8>)
    ensures
        final(out)@ == old(out)@ + jesc(s@),
{
    let ghost base = out@;
    let mut i: usize = 0;
    while i < s.len()
        invariant
            i <= s@.len(),
            out@ == base + jesc(s@.take(i as int)),
        decreases s@.len() - i,
    {
        proof {
            assert(s@.len() == s.len());
        }
        push_jesc_byte(out, s[i]);
        i = i + 1;
        proof {
            assert(s@.take(i as int).drop_last() =~= s@.take(i - 1));
            assert(s@.take(i as int).last() == s@[i - 1]);
            assert(out@ =~= base + jesc(s@.take(i as int)));
        }
    }
    proof {
        assert(s@.take(s@.len() as int) =~= s@);
    }
}

/// Append a JSON string.
fn push_jstr(out: &mut Vec<u8>, s: &Vec<u8>)
    ensures
        final(out)@ == old(out)@ + jstr(s@),
{
    out.push(0x22);
    push_jesc(out, s);
    out.push(0x22);
    proof {
        assert(out@ =~= old(out)@ + jstr(s@));
    }
}

/// Append the members of a JSON array of byte values.
fn push_json_byte_items(out: &mut Vec<u8>, s: &Vec<u8>)
    ensures
        final(out)@ == old(out)@ + json_byte_items(s@),
{
    let ghost base = out@;
    let mut i: usize = 0;
    while i < s.len()
        invariant
            i <= s@.len(),
            out@ == base + json_byte_items(s@.take(i as int)),
        decreases s@.len() - i,
    {
        proof {
            assert(s@.len() == s.len());
        }
        if i > 0 {
            out.push(0x2c);
        }
        crate::numfmt::push_dec_u64(out, s[i] as u64);
        i = i + 1;
        proof {
            assert(s@.take(i as int).drop_last() =~= s@.take(i - 1));
            assert(s@.take(i as int).last() == s@[i - 1]);
            if i == 1 {
                assert(s@.take(1)[0] == s@[0]);
            }
            assert(out@ =~= base + json_byte_items(s@.take(i as int)));
        }
    }
    proof {
        assert(s@.take(s@.len() as int) =~= s@);
    }
}

/// Append one decoded value as JSON.
fn push_json_value(out: &mut Vec<u8>, v: &Value)
    ensures
        final(out)@ == old(out)@ + json_value(*v),
{
    match v {
        Value::Null => {
            push_lit_null(out);
        },
        Value::Unchanged => {
            push_lit_unchanged(out);
        },
        Value::Bool(b) => {
            if *b {
                push_lit_true(out);
            } else {
                push_lit_false(out);
            }
        },
        Value::Int(n) => {
            crate::numfmt::push_dec_i64(out, *n);
        },
        Value::Float(t) => {
            push_bytes(out, t);
        },
        Value::Text(t) => {
            push_jstr(out, t);
        },
        Value::Binary(t) => {
            out.push(0x5b);
            push_json_byte_items(out, t);
            out.push(0x5d);
            proof {
                assert(out@ =~= old(out)@ + json_value(*v));
            }
        },
    }
}

/// Append a tuple as a JSON object.
fn push_json_tuple(out: &mut Vec<u8>, t: &Tuple)
    ensures
        final(out)@ == old(out)@ + json_tuple(*t),
{
    let ghost base = out@;
    out.push(0x7b);
    let mut i: usize = 0;
    while i < t.cols.len()
        invariant
            i <= t.cols@.len(),
            out@ == base + seq![0x7bu8] + json_tuple_entries(t.cols@.take(i as int)),
        decreases t.cols@.len() - i,
    {
        proof {
            assert(t.cols@.len() == t.cols.len());
        }
        if i > 0 {
            out.push(0x2c);
        }
        push_jstr(out, &t.cols[i].0);
        out.push(0x3a);
        push_json_value(out, &t.cols[i].1);
        i = i + 1;
        proof {
            assert(t.cols@.take(i as int).drop_last() =~= t.cols@.take(i - 1));
            assert(t.cols@.take(i as int).last() == t.cols@[i - 1]);
            if i == 1 {
                assert(t.cols@.take(1)[0] == t.cols@[0]);
            }
            assert(out@ =~= base + seq![0x7bu8] + json_tuple_entries(t.cols@.take(i as int)));
        }
    }
    out.push(0x7d);
    proof {
        assert(t.cols@.take(t.cols@.len() as int) =~= t.cols@);
        assert(out@ =~= base + json_tuple(*t));
    }
}

/// Append one column description as JSON.
fn push_json_column(out: &mut Vec<u8>, c: &Column)
    ensures
        final(out)@ == old(out)@ + json_column(*c),
{
    push_col_open(out);
    crate::numfmt::push_dec_u64(out, c.flags as u64);
    push_key_name(out);
    push_jstr(out, &c.name);
    push_key_type_id(out);
    crate::numfmt::push_dec_u64(out, c.type_id as u64);
    push_key_type_modifier(out);
    crate::numfmt::push_dec_i64(out, c.type_modifier as i64);
    out.push(0x7d);
    proof {
        assert(out@ =~= old(out)@ + json_column(*c));
    }
}

/// Append the members of a column array.
fn push_json_columns(out: &mut Vec<u8>, cs: &Vec<Column>)
    ensures
        final(out)@ == old(out)@ + json_columns(cs@),
{
    let ghost base = out@;
    let mut i: usize = 0;
    while i < cs.len()
        invariant
            i <= cs@.len(),
            out@ == base + json_columns(cs@.take(i as int)),
        decreases cs@.len() - i,
    {
        proof {
            assert(cs@.len() == cs.len());
        }
        if i > 0 {
            out.push(0x2c);
        }
        push_json_column(out, &cs[i]);
        i = i + 1;
        proof {
            assert(cs@.take(i as int).drop_last() =~= cs@.take(i - 1));
            assert(cs@.take(i as int).last() == cs@[i - 1]);
            if i == 1 {
                assert(cs@.take(1)[0] == cs@[0]);
            }
            assert(out@ =~= base + json_columns(cs@.take(i as int)));
        }
    }
    proof {
        assert(cs@.take(cs@.len() as int) =~= cs@);
    }
}

/// Append the members of a relation id array.
fn push_json_rel_ids(out: &mut Vec<u8>, ids: &Vec<u32>)
    ensures
        final(out)@ == old(out)@ + json_rel_ids(ids@),
{
    let ghost base = out@;
    let mut i: usize = 0;
    while i < ids.len()
        invariant
            i <= ids@.len(),
            out@ == base + json_rel_ids(ids@.take(i as int)),
        decreases ids@.len() - i,
    {
        proof {
            assert(ids@.len() == ids.len());
        }
        if i > 0 {
            out.push(0x2c);
        }
        crate::numfmt::push_dec_u64(out, ids[i] as u64);
        i = i + 1;
        proof {
            assert(ids@.take(i as int).drop_last() =~= ids@.take(i - 1));
            assert(ids@.take(i as int).last() == ids@[i - 1]);
            if i == 1 {
                assert(ids@.take(1)[0] == ids@[0]);
            }
            assert(out@ =~= base + json_rel_ids(ids@.take(i as int)));
        }
    }
    proof {
        assert(ids@.take(ids@.len() as int) =~= ids@);
    }
}

/// Append the message member of a document.
#[verifier::rlimit(60)]
fn push_json_message(out: &mut Vec<u8>, m: &LogicalMessage)
    ensures
        final(out)@ == old(out)@ + json_message(*m),
{
    match m {
        LogicalMessage::Begin { xid, final_lsn } => {
            push_begin_open(out);
            crate::numfmt::push_dec_u64(out, *xid as u64);
            push_begin_final(out);
            crate::numfmt::push_dec_u64(out, *final_lsn);
            out.push(0x7d);
            out.push(0x7d);
            proof {
                assert(out@ =~= old(out)@ + json_message(*m));
            }
        },
        LogicalMessage::Commit { lsn, end_lsn } => {
            push_commit_open(out);
            crate::numfmt::push_dec_u64(out, *lsn);
            push_commit_end(out);
            crate::numfmt::push_dec_u64(out, *end_lsn);
            out.push(0x7d);
            out.push(0x7d);
            proof {
                assert(out@ =~= old(out)@ + json_message(*m));
            }
        },
        LogicalMessage::Origin { commit_lsn, name } => {
            push_origin_open(out);
            crate::numfmt::push_dec_u64(out, *commit_lsn);
            push_key_name(out);
            push_jstr(out, name);
            out.push(0x7d);
            out.push(0x7d);
            proof {
                assert(out@ =~= old(out)@ + json_message(*m));
            }
        },
        LogicalMessage::Relation { rel_id, namespace, name, columns } => {
            push_relation_open(out);
            crate::numfmt::push_dec_u64(out, *rel_id as u64);
            push_key_namespace(out);
            push_jstr(out, namespace);
            push_key_name(out);
            push_jstr(out, name);
            push_key_columns(out);
            push_json_columns(out, columns);
            out.push(0x5d);
            out.push(0x7d);
            out.push(0x7d);
            proof {
                assert(out@ =~= old(out)@ + json_message(*m));
            }
        },
        LogicalMessage::Type { id, namespace, name } => {
            push_type_open(out);
            crate::numfmt::push_dec_u64(out, *id as u64);
            push_key_namespace(out);
            push_jstr(out, namespace);
            push_key_name(out);
            push_jstr(out, name);
            out.push(0x7d);
            out.push(0x7d);
            proof {
                assert(out@ =~= old(out)@ + json_message(*m));
            }
        },
        LogicalMessage::Insert { rel_id, new } => {
            push_insert_open(out);
            crate::numfmt::push_dec_u64(out, *rel_id as u64);
            push_key_new(out);
            push_json_tuple(out, new);
            out.push(0x7d);
            out.push(0x7d);
            proof {
                assert(out@ =~= old(out)@ + json_message(*m));
            }
        },
        LogicalMessage::Update { rel_id, old: old_t, new } => {
            push_update_open(out);
            crate::numfmt::push_dec_u64(out, *rel_id as u64);
            push_key_old(out);
            match old_t {
                Some(t) => {
                    push_json_tuple(out, t);
                },
                None => {
                    push_lit_null(out);
                },
            }
            push_key_new(out);
            push_json_tuple(out, new);
            out.push(0x7d);
            out.push(0x7d);
            proof {
                assert(out@ =~= old(out)@ + json_message(*m));
            }
        },
        LogicalMessage::Delete { rel_id, old: old_t } => {
            push_delete_open(out);
            crate::numfmt::push_dec_u64(out, *rel_id as u64);
            push_key_old(out);
            push_json_tuple(out, old_t);
            out.push(0x7d);
            out.push(0x7d);
            proof {
                assert(out@ =~= old(out)@ + json_message(*m));
            }
        },
        LogicalMessage::Truncate { options, rel_ids } => {
            push_truncate_open(out);
            crate::numfmt::push_dec_u64(out, *options as u64);
            push_key_rel_ids(out);
            push_json_rel_ids(out, rel_ids);
            out.push(0x5d);
            out.push(0x7d);
            out.push(0x7d);
            proof {
                assert(out@ =~= old(out)@ + json_message(*m));
            }
        },
    }
}

/// Serialize a domain event to its canonical JSON document.
pub fn encode_event(e: &DomainEvent) -> (r: Vec<u8>)
    ensures
        r@ == json_event(*e),
{
    let mut out: Vec<u8> = Vec::new();
    push_doc_open(&mut out);
    crate::numfmt::push_dec_u64(&mut out, e.lsn);
    push_doc_ts(&mut out);
    crate::numfmt::push_dec_i64(&mut out, e.timestamp);
    push_doc_msg(&mut out);
    push_json_message(&mut out, &e.message);
    out.push(0x7d);
    proof {
        assert(out@ =~= json_event(*e));
    }
    out
}

/// The WAL position carried by a canonical document: the value of the
/// leading `"lsn"` member, read back from the raw bytes.
pub open spec fn doc_lsn_val(s: Seq<u8>) -> Option<int> {
    if s.len() >= 7 && s.take(7) == doc_open() {
        let e = digits_end(s, 7);
        if 7 < e && e < s.len() && s[e] == 0x2c && dec_val(s.subrange(7, e)) <= u64::MAX {
            Some(dec_val(s.subrange(7, e)))
        } else {
            None
        }
    } else {
        None
    }
}

/// Read the WAL position back out of a stored record. `Some` exactly
/// when the record is the complete canonical document of some domain
/// event — reconstructed, re-encoded and compared byte for byte — and
/// then the value is that event's position. Anything else is
/// unreadable state, for the caller to treat as fatal.
pub fn decode_lsn(record: &Vec<u8>) -> (r: Option<u64>)
    ensures
        match r {
            Some(v) => {
                &&& doc_lsn_val(record@) == Some(v as int)
                &&& exists|e: DomainEvent| #[trigger] json_event(e) == record@ && e.lsn == v
            },
            None => true,
        },
{
    match decode_document(record) {
        None => None,
        Some(ev) => {
            let enc = encode_event(&ev);
            if bytes_eq(&enc, record) {
                proof {
                    lemma_doc_lsn_of_event(ev);
                    assert(json_event(ev) == record@);
                }
                Some(ev.lsn)
            } else {
                None
            }
        },
    }
}


/// Compare two byte strings.
fn bytes_eq(a: &Vec<u8>, b: &Vec<u8>) -> (r: bool)
    ensures
        r == (a@ == b@),
{
    if a.len() != b.len() {
        proof {
            assert(a@.len() != b@.len());
        }
        return false;
    }
    let mut i: usize = 0;
    while i < a.len()
        invariant
            i <= a@.len(),
            a@.len() == b@.len(),
            forall|j: int| 0 <= j < i ==> a@[j] == b@[j],
        decreases a@.len() - i,
    {
        proof {
            assert(a@.len() == a.len());
        }
        if a[i] != b[i] {
            return false;
        }
        i = i + 1;
    }
    proof {
        assert(a@ =~= b@);
    }
    true
}

/// Match a fixed pattern at `pos`.
fn match_at(record: &Vec<u8>, pos: usize, pat: &Vec<u8>) -> (r: Option<usize>)
    ensures
        match r {
            Some(end) => end == pos + pat@.len() && end <= record@.len(),
            None => true,
        },
{
    if pos > record.len() || record.len() - pos < pat.len() {
        return None;
    }
    let mut i: usize = 0;
    while i < pat.len()
        invariant
            i <= pat@.len(),
            pos + pat@.len() <= record@.len(),
        decreases pat@.len() - i,
    {
        proof {
            assert(record@.len() == record.len());
            assert(pat@.len() == pat.len());
        }
        if record[pos + i] != pat[i] {
            return None;
        }
        i = i + 1;
    }
    Some(pos + pat.len())
}

/// Read an unsigned decimal field.
fn rd_u64(record: &Vec<u8>, pos: usize) -> (r: Option<(u64, usize)>)
    ensures
        match r {
            Some(p) => pos < p.1 <= record@.len(),
            None => true,
        },
{
    if pos > record.len() {
        return None;
    }
    read_dec_u64(record, pos)
}

/// Read a signed decimal field.
fn rd_i64(record: &Vec<u8>, pos: usize) -> (r: Option<(i64, usize)>)
    ensures
        match r {
            Some(p) => pos < p.1 <= record@.len(),
            None => true,
        },
{
    if pos < record.len() && record[pos] == 0x2d {
        match rd_u64(record, pos + 1) {
            Some((mag, end)) => {
                if mag > 0x8000_0000_0000_0000 {
                    None
                } else {
                    let wide: i128 = -(mag as i128);
                    Some((wide as i64, end))
                }
            },
            None => None,
        }
    } else {
        match rd_u64(record, pos) {
            Some((v, end)) => {
                if v > 0x7fff_ffff_ffff_ffff {
                    None
                } else {
                    Some((v as i64, end))
                }
            },
            None => None,
        }
    }
}

fn rd_u32(record: &Vec<u8>, pos: usize) -> (r: Option<(u32, usize)>)
    ensures
        match r {
            Some(p) => pos < p.1 <= record@.len(),
            None => true,
        },
{
    match rd_u64(record, pos) {
        Some((v, end)) => {
            if v > 0xffff_ffff {
                None
            } else {
                Some((v as u32, end))
            }
        },
        None => None,
    }
}

/// Read a JSON string back into its bytes, undoing the escapes the
/// encoder applies.
fn rd_string(record: &Vec<u8>, pos: usize) -> (r: Option<(Vec<u8>, usize)>)
    ensures
        match r {
            Some(p) => pos < p.1 <= record@.len(),
            None => true,
        },
{
    if !(pos < record.len() && record[pos] == 0x22) {
        return None;
    }
    let mut out: Vec<u8> = Vec::new();
    let mut i: usize = pos + 1;
    while i < record.len()
        invariant
            pos < i <= record@.len(),
        decreases record@.len() - i,
    {
        proof {
            assert(record@.len() == record.len());
        }
        let b = record[i];
        if b == 0x22 {
            return Some((out, i + 1));
        }
        if b == 0x5c {
            if record.len() - i <= 1 {
                return None;
            }
            let e = record[i + 1];
            if e == 0x22 {
                out.push(0x22);
                i = i + 2;
            } else if e == 0x5c {
                out.push(0x5c);
                i = i + 2;
            } else if e == 0x75 {
                if record.len() - i <= 5 {
                    return None;
                }
                if record[i + 2] != 0x30 || record[i + 3] != 0x30 {
                    return None;
                }
                let hi = hex_val(record[i + 4]);
                let lo = hex_val(record[i + 5]);
                match (hi, lo) {
                    (Some(h), Some(l)) => {
                        out.push(h * 16 + l);
                        i = i + 6;
                    },
                    _ => {
                        return None;
                    },
                }
            } else {
                return None;
            }
        } else {
            out.push(b);
            i = i + 1;
        }
    }
    None
}

/// The value of a hexadecimal digit byte.
fn hex_val(b: u8) -> (r: Option<u8>)
    ensures
        r matches Some(v) ==> v < 16,
{
    if 0x30 <= b && b <= 0x39 {
        Some(b - 0x30)
    } else if 0x41 <= b && b <= 0x46 {
        Some(b - 0x41 + 10)
    } else {
        None
    }
}

/// Read a numeric tuple value: an integer when the text is one, else a
/// float carried in its textual form.
fn rd_number_value(record: &Vec<u8>, pos: usize) -> (r: Option<(Value, usize)>)
    ensures
        match r {
            Some(p) => pos < p.1 <= record@.len(),
            None => true,
        },
{
    if pos > record.len() {
        return None;
    }
    let mut i: usize = pos;
    while i < record.len() && (record[i] == 0x2d || record[i] == 0x2b || record[i] == 0x2e
        || record[i] == 0x65 || record[i] == 0x45 || (0x30 <= record[i] && record[i] <= 0x39))
        invariant
            pos <= i <= record@.len(),
        decreases record@.len() - i,
    {
        i = i + 1;
    }
    if i == pos {
        return None;
    }
    let seg = match crate::wal::copy_range(record, pos, i) {
        Some(v) => v,
        None => { return None; },
    };
    match crate::convert::parse_int_bytes(&seg) {
        Some(v) => Some((Value::Int(v), i)),
        None => {
            if crate::convert::check_float_bytes(&seg) {
                Some((Value::Float(seg), i))
            } else {
                None
            }
        },
    }
}

/// Read one decoded tuple value.
fn rd_value(record: &Vec<u8>, pos: usize) -> (r: Option<(Value, usize)>)
    ensures
        match r {
            Some(p) => pos < p.1 <= record@.len(),
            None => true,
        },
{
    if pos >= record.len() {
        return None;
    }
    let b = record[pos];
    if b == 0x22 {
        match rd_string(record, pos) {
            Some((s, end)) => Some((Value::Text(s), end)),
            None => None,
        }
    } else if b == 0x6e {
        let mut pat: Vec<u8> = Vec::new();
        push_lit_null(&mut pat);
        match match_at(record, pos, &pat) {
            Some(end) => Some((Value::Null, end)),
            None => None,
        }
    } else if b == 0x74 {
        let mut pat: Vec<u8> = Vec::new();
        push_lit_true(&mut pat);
        match match_at(record, pos, &pat) {
            Some(end) => Some((Value::Bool(true), end)),
            None => None,
        }
    } else if b == 0x66 {
        let mut pat: Vec<u8> = Vec::new();
        push_lit_false(&mut pat);
        match match_at(record, pos, &pat) {
            Some(end) => Some((Value::Bool(false), end)),
            None => None,
        }
    } else if b == 0x7b {
        let mut pat: Vec<u8> = Vec::new();
        push_lit_unchanged(&mut pat);
        match match_at(record, pos, &pat) {
            Some(end) => Some((Value::Unchanged, end)),
            None => None,
        }
    } else if b == 0x5b {
        let mut bytes: Vec<u8> = Vec::new();
        let mut cur: usize = pos + 1;
        if cur < record.len() && record[cur] == 0x5d {
            return Some((Value::Binary(bytes), cur + 1));
        }
        loop
            invariant
                pos < cur <= record@.len(),
            decreases record@.len() - cur,
        {
            let (v, c1) = match rd_u64(record, cur) {
                Some(x) => x,
                None => { return None; },
            };
            if v > 255 {
                return None;
            }
            bytes.push(v as u8);
            if c1 < record.len() && record[c1] == 0x2c {
                cur = c1 + 1;
                if cur >= record.len() {
                    return None;
                }
            } else if c1 < record.len() && record[c1] == 0x5d {
                return Some((Value::Binary(bytes), c1 + 1));
            } else {
                return None;
            }
        }
    } else {
        rd_number_value(record, pos)
    }
}

/// Read a tuple object back.
fn rd_tuple(record: &Vec<u8>, pos: usize) -> (r: Option<(Tuple, usize)>)
    ensures
        match r {
            Some(p) => pos < p.1 <= record@.len(),
            None => true,
        },
{
    if !(pos < record.len() && record[pos] == 0x7b) {
        return None;
    }
    let mut cols: Vec<(Vec<u8>, Value)> = Vec::new();
    let mut cur: usize = pos + 1;
    if cur < record.len() && record[cur] == 0x7d {
        return Some((Tuple { cols }, cur + 1));
    }
    loop
        invariant
            pos < cur <= record@.len(),
        decreases record@.len() - cur,
    {
        let (name, c1) = match rd_string(record, cur) {
            Some(x) => x,
            None => { return None; },
        };
        if !(c1 < record.len() && record[c1] == 0x3a) {
            return None;
        }
        let (v, c2) = match rd_value(record, c1 + 1) {
            Some(x) => x,
            None => { return None; },
        };
        cols.push((name, v));
        if c2 < record.len() && record[c2] == 0x2c {
            cur = c2 + 1;
            if cur >= record.len() {
                return None;
            }
        } else if c2 < record.len() && record[c2] == 0x7d {
            return Some((Tuple { cols }, c2 + 1));
        } else {
            return None;
        }
    }
}

/// Read a column array back.
fn rd_columns(record: &Vec<u8>, pos: usize) -> (r: Option<(Vec<Column>, usize)>)
    ensures
        match r {
            Some(p) => pos <= p.1 <= record@.len(),
            None => true,
        },
{
    if pos > record.len() {
        return None;
    }
    let mut cols: Vec<Column> = Vec::new();
    let mut cur: usize = pos;
    if cur < record.len() && record[cur] == 0x5d {
        return Some((cols, cur));
    }
    let mut open: Vec<u8> = Vec::new();
    push_col_open(&mut open);
    let mut kn: Vec<u8> = Vec::new();
    push_key_name(&mut kn);
    let mut kt: Vec<u8> = Vec::new();
    push_key_type_id(&mut kt);
    let mut km: Vec<u8> = Vec::new();
    push_key_type_modifier(&mut km);
    loop
        invariant
            pos <= cur <= record@.len(),
            open@.len() > 0,
            kn@.len() > 0,
            kt@.len() > 0,
            km@.len() > 0,
        decreases record@.len() - cur,
    {
        let c1 = match match_at(record, cur, &open) {
            Some(x) => x,
            None => { return None; },
        };
        let (flags64, c2) = match rd_u64(record, c1) {
            Some(x) => x,
            None => { return None; },
        };
        if flags64 > 255 {
            return None;
        }
        let c3 = match match_at(record, c2, &kn) {
            Some(x) => x,
            None => { return None; },
        };
        let (name, c4) = match rd_string(record, c3) {
            Some(x) => x,
            None => { return None; },
        };
        let c5 = match match_at(record, c4, &kt) {
            Some(x) => x,
            None => { return None; },
        };
        let (type_id, c6) = match rd_u32(record, c5) {
            Some(x) => x,
            None => { return None; },
        };
        let c7 = match match_at(record, c6, &km) {
            Some(x) => x,
            None => { return None; },
        };
        let (tmod64, c8) = match rd_i64(record, c7) {
            Some(x) => x,
            None => { return None; },
        };
        if tmod64 > 0x7fff_ffff || tmod64 < -0x8000_0000 {
            return None;
        }
        if !(c8 < record.len() && record[c8] == 0x7d) {
            return None;
        }
        cols.push(
            Column { flags: flags64 as u8, name, type_id, type_modifier: tmod64 as i32 },
        );
        let c9 = c8 + 1;
        if c9 < record.len() && record[c9] == 0x2c {
            cur = c9 + 1;
            if cur >= record.len() {
                return None;
            }
        } else {
            return Some((cols, c9));
        }
    }
}

/// Read the message member back.
fn rd_message(record: &Vec<u8>, pos: usize) -> (r: Option<(LogicalMessage, usize)>)
    ensures
        match r {
            Some(p) => pos <= p.1 <= record@.len(),
            None => true,
        },
{
    let mut pat: Vec<u8> = Vec::new();
    push_begin_open(&mut pat);
    if let Some(c1) = match_at(record, pos, &pat) {
        let (xid, c2) = match rd_u32(record, c1) {
            Some(x) => x,
            None => { return None; },
        };
        let mut p2: Vec<u8> = Vec::new();
        push_begin_final(&mut p2);
        let c3 = match match_at(record, c2, &p2) {
            Some(x) => x,
            None => { return None; },
        };
        let (final_lsn, c4) = match rd_u64(record, c3) {
            Some(x) => x,
            None => { return None; },
        };
        return match expect_two_braces(record, c4) {
            Some(end) => Some((LogicalMessage::Begin { xid, final_lsn }, end)),
            None => None,
        };
    }
    let mut pat2: Vec<u8> = Vec::new();
    push_commit_open(&mut pat2);
    if let Some(c1) = match_at(record, pos, &pat2) {
        let (lsn, c2) = match rd_u64(record, c1) {
            Some(x) => x,
            None => { return None; },
        };
        let mut p2: Vec<u8> = Vec::new();
        push_commit_end(&mut p2);
        let c3 = match match_at(record, c2, &p2) {
            Some(x) => x,
            None => { return None; },
        };
        let (end_lsn, c4) = match rd_u64(record, c3) {
            Some(x) => x,
            None => { return None; },
        };
        return match expect_two_braces(record, c4) {
            Some(end) => Some((LogicalMessage::Commit { lsn, end_lsn }, end)),
            None => None,
        };
    }
    let mut pat3: Vec<u8> = Vec::new();
    push_origin_open(&mut pat3);
    if let Some(c1) = match_at(record, pos, &pat3) {
        let (commit_lsn, c2) = match rd_u64(record, c1) {
            Some(x) => x,
            None => { return None; },
        };
        let mut p2: Vec<u8> = Vec::new();
        push_key_name(&mut p2);
        let c3 = match match_at(record, c2, &p2) {
            Some(x) => x,
            None => { return None; },
        };
        let (name, c4) = match rd_string(record, c3) {
            Some(x) => x,
            None => { return None; },
        };
        return match expect_two_braces(record, c4) {
            Some(end) => Some((LogicalMessage::Origin { commit_lsn, name }, end)),
            None => None,
        };
    }
    let mut pat4: Vec<u8> = Vec::new();
    push_relation_open(&mut pat4);
    if let Some(c1) = match_at(record, pos, &pat4) {
        let (rel_id, c2) = match rd_u32(record, c1) {
            Some(x) => x,
            None => { return None; },
        };
        let mut pns: Vec<u8> = Vec::new();
        push_key_namespace(&mut pns);
        let c3 = match match_at(record, c2, &pns) {
            Some(x) => x,
            None => { return None; },
        };
        let (namespace, c4) = match rd_string(record, c3) {
            Some(x) => x,
            None => { return None; },
        };
        let mut pn: Vec<u8> = Vec::new();
        push_key_name(&mut pn);
        let c5 = match match_at(record, c4, &pn) {
            Some(x) => x,
            None => { return None; },
        };
        let (name, c6) = match rd_string(record, c5) {
            Some(x) => x,
            None => { return None; },
        };
        let mut pc: Vec<u8> = Vec::new();
        push_key_columns(&mut pc);
        let c7 = match match_at(record, c6, &pc) {
            Some(x) => x,
            None => { return None; },
        };
        let (columns, c8) = match rd_columns(record, c7) {
            Some(x) => x,
            None => { return None; },
        };
        if !(c8 < record.len() && record[c8] == 0x5d) {
            return None;
        }
        return match expect_two_braces(record, c8 + 1) {
            Some(end) => Some((LogicalMessage::Relation { rel_id, namespace, name, columns }, end)),
            None => None,
        };
    }
    let mut pat5: Vec<u8> = Vec::new();
    push_type_open(&mut pat5);
    if let Some(c1) = match_at(record, pos, &pat5) {
        let (id, c2) = match rd_u32(record, c1) {
            Some(x) => x,
            None => { return None; },
        };
        let mut pns: Vec<u8> = Vec::new();
        push_key_namespace(&mut pns);
        let c3 = match match_at(record, c2, &pns) {
            Some(x) => x,
            None => { return None; },
        };
        let (namespace, c4) = match rd_string(record, c3) {
            Some(x) => x,
            None => { return None; },
        };
        let mut pn: Vec<u8> = Vec::new();
        push_key_name(&mut pn);
        let c5 = match match_at(record, c4, &pn) {
            Some(x) => x,
            None => { return None; },
        };
        let (name, c6) = match rd_string(record, c5) {
            Some(x) => x,
            None => { return None; },
        };
        return match expect_two_braces(record, c6) {
            Some(end) => Some((LogicalMessage::Type { id, namespace, name }, end)),
            None => None,
        };
    }
    let mut pat6: Vec<u8> = Vec::new();
    push_insert_open(&mut pat6);
    if let Some(c1) = match_at(record, pos, &pat6) {
        let (rel_id, c2) = match rd_u32(record, c1) {
            Some(x) => x,
            None => { return None; },
        };
        let mut pn: Vec<u8> = Vec::new();
        push_key_new(&mut pn);
        let c3 = match match_at(record, c2, &pn) {
            Some(x) => x,
            None => { return None; },
        };
        let (new, c4) = match rd_tuple(record, c3) {
            Some(x) => x,
            None => { return None; },
        };
        return match expect_two_braces(record, c4) {
            Some(end) => Some((LogicalMessage::Insert { rel_id, new }, end)),
            None => None,
        };
    }
    let mut pat7: Vec<u8> = Vec::new();
    push_update_open(&mut pat7);
    if let Some(c1) = match_at(record, pos, &pat7) {
        let (rel_id, c2) = match rd_u32(record, c1) {
            Some(x) => x,
            None => { return None; },
        };
        let mut po: Vec<u8> = Vec::new();
        push_key_old(&mut po);
        let c3 = match match_at(record, c2, &po) {
            Some(x) => x,
            None => { return None; },
        };
        let mut pnull: Vec<u8> = Vec::new();
        push_lit_null(&mut pnull);
        let (old_t, c4) = match match_at(record, c3, &pnull) {
            Some(e) => (None, e),
            None => match rd_tuple(record, c3) {
                Some((t, e)) => (Some(t), e),
                None => { return None; },
            },
        };
        let mut pn: Vec<u8> = Vec::new();
        push_key_new(&mut pn);
        let c5 = match match_at(record, c4, &pn) {
            Some(x) => x,
            None => { return None; },
        };
        let (new, c6) = match rd_tuple(record, c5) {
            Some(x) => x,
            None => { return None; },
        };
        return match expect_two_braces(record, c6) {
            Some(end) => Some((LogicalMessage::Update { rel_id, old: old_t, new }, end)),
            None => None,
        };
    }
    let mut pat8: Vec<u8> = Vec::new();
    push_delete_open(&mut pat8);
    if let Some(c1) = match_at(record, pos, &pat8) {
        let (rel_id, c2) = match rd_u32(record, c1) {
            Some(x) => x,
            None => { return None; },
        };
        let mut po: Vec<u8> = Vec::new();
        push_key_old(&mut po);
        let c3 = match match_at(record, c2, &po) {
            Some(x) => x,
            None => { return None; },
        };
        let (old_t, c4) = match rd_tuple(record, c3) {
            Some(x) => x,
            None => { return None; },
        };
        return match expect_two_braces(record, c4) {
            Some(end) => Some((LogicalMessage::Delete { rel_id, old: old_t }, end)),
            None => None,
        };
    }
    let mut pat9: Vec<u8> = Vec::new();
    push_truncate_open(&mut pat9);
    if let Some(c1) = match_at(record, pos, &pat9) {
        let (opt64, c2) = match rd_u64(record, c1) {
            Some(x) => x,
            None => { return None; },
        };
        if opt64 > 255 {
            return None;
        }
        let mut pr: Vec<u8> = Vec::new();
        push_key_rel_ids(&mut pr);
        let c3 = match match_at(record, c2, &pr) {
            Some(x) => x,
            None => { return None; },
        };
        let mut rel_ids: Vec<u32> = Vec::new();
        let mut cur: usize = c3;
        if cur < record.len() && record[cur] == 0x5d {
            return match expect_two_braces(record, cur + 1) {
                Some(end) => Some(
                    (LogicalMessage::Truncate { options: opt64 as u8, rel_ids }, end),
                ),
                None => None,
            };
        }
        loop
            invariant
                pos <= cur <= record@.len(),
            decreases record@.len() - cur,
        {
            let (rid, cn) = match rd_u32(record, cur) {
                Some(x) => x,
                None => { return None; },
            };
            rel_ids.push(rid);
            if cn < record.len() && record[cn] == 0x2c {
                cur = cn + 1;
                if cur >= record.len() {
                    return None;
                }
            } else if cn < record.len() && record[cn] == 0x5d {
                return match expect_two_braces(record, cn + 1) {
                    Some(end) => Some(
                        (LogicalMessage::Truncate { options: opt64 as u8, rel_ids }, end),
                    ),
                    None => None,
                };
            } else {
                return None;
            }
        }
    }
    None
}

/// Expect the two closing braces of a message object.
fn expect_two_braces(record: &Vec<u8>, pos: usize) -> (r: Option<usize>)
    ensures
        match r {
            Some(end) => pos < end <= record@.len(),
            None => true,
        },
{
    if pos < record.len() && record.len() - pos >= 2 && record[pos] == 0x7d && record[pos + 1]
        == 0x7d {
        Some(pos + 2)
    } else {
        None
    }
}

/// Reconstruct a domain event from a canonical document. Used only
/// through `decode_lsn`, which re-encodes the result and accepts the
/// record exactly when the bytes agree.
fn decode_document(record: &Vec<u8>) -> (r: Option<DomainEvent>) {
    let mut p0: Vec<u8> = Vec::new();
    push_doc_open(&mut p0);
    let c1 = match match_at(record, 0, &p0) {
        Some(x) => x,
        None => { return None; },
    };
    let (lsn, c2) = match rd_u64(record, c1) {
        Some(x) => x,
        None => { return None; },
    };
    let mut p1: Vec<u8> = Vec::new();
    push_doc_ts(&mut p1);
    let c3 = match match_at(record, c2, &p1) {
        Some(x) => x,
        None => { return None; },
    };
    let (timestamp, c4) = match rd_i64(record, c3) {
        Some(x) => x,
        None => { return None; },
    };
    let mut p2: Vec<u8> = Vec::new();
    push_doc_msg(&mut p2);
    let c5 = match match_at(record, c4, &p2) {
        Some(x) => x,
        None => { return None; },
    };
    let (message, c6) = match rd_message(record, c5) {
        Some(x) => x,
        None => { return None; },
    };
    if c6 < record.len() && record[c6] == 0x7d && c6 + 1 == record.len() {
        Some(DomainEvent { lsn, timestamp, message })
    } else {
        None
    }
}

/// Resume correctness at the codec level: the WAL position read back
/// out of an encoded event is the event's own position.
pub proof fn lemma_doc_lsn_of_event(e: DomainEvent)
    ensures
        doc_lsn_val(json_event(e)) == Some(e.lsn as int),
{
    let s = json_event(e);
    let d = dec_seq(e.lsn as nat);
    lemma_dec_seq_digits(e.lsn as nat);
    lemma_dec_round_trip(e.lsn as nat);
    assert(s.take(7) =~= doc_open());
    assert forall|j: int| 7 <= j < 7 + d.len() implies is_dec_digit(#[trigger] s[j]) by {
        assert(s[j] == d[j - 7]);
    }
    assert(s[7 + d.len() as int] == doc_ts()[0]);
    crate::convert::lemma_digits_end_unique(s, 7, 7 + d.len() as int);
    assert(s.subrange(7, 7 + d.len() as int) =~= d);
}

} // verus!
