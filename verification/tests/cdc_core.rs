//! End-to-end tests of the CDC core: wire parsing, conversion against
//! the relation cache, the JSON wire encoding, resume discovery, the
//! replication start command, keepalives, and batching.

use pg_cdc::cache::RelationCache;
use pg_cdc::convert::{convert_message, convert_replication_event, ConvertError};
use pg_cdc::emit::{batch_records, plan_single_emission};
use pg_cdc::json::{decode_lsn, encode_event};
use pg_cdc::model::{DomainEvent, LogicalMessage, RawMessage, Value};
use pg_cdc::session::{
    keepalive_timestamp, keepalive_timestamp_micros, lsn_text, resume_from_tail,
    session_startup, start_replication_command, EmissionPath, FatalError, ResumeError, Session,
    StatusUpdate,
};
use pg_cdc::wal::{parse_frame, parse_logical, Frame};

enum Tv<'a> {
    T(&'a str),
    N,
    U,
}

fn put_u16(out: &mut Vec<u8>, v: u16) {
    out.extend_from_slice(&v.to_be_bytes());
}

fn put_u32(out: &mut Vec<u8>, v: u32) {
    out.extend_from_slice(&v.to_be_bytes());
}

fn put_u64(out: &mut Vec<u8>, v: u64) {
    out.extend_from_slice(&v.to_be_bytes());
}

fn put_i64(out: &mut Vec<u8>, v: i64) {
    out.extend_from_slice(&v.to_be_bytes());
}

fn put_cstr(out: &mut Vec<u8>, s: &str) {
    out.extend_from_slice(s.as_bytes());
    out.push(0);
}

fn relation_payload(rel_id: u32, ns: &str, name: &str, cols: &[(u8, &str, u32, i32)]) -> Vec<u8> {
    let mut p = vec![b'R'];
    put_u32(&mut p, rel_id);
    put_cstr(&mut p, ns);
    put_cstr(&mut p, name);
    p.push(b'd');
    put_u16(&mut p, cols.len() as u16);
    for (flags, cname, type_id, tmod) in cols {
        p.push(*flags);
        put_cstr(&mut p, cname);
        put_u32(&mut p, *type_id);
        put_u32(&mut p, *tmod as u32);
    }
    p
}

fn tuple_data(values: &[Tv]) -> Vec<u8> {
    let mut p = Vec::new();
    put_u16(&mut p, values.len() as u16);
    for v in values {
        match v {
            Tv::T(s) => {
                p.push(b't');
                put_u32(&mut p, s.len() as u32);
                p.extend_from_slice(s.as_bytes());
            }
            Tv::N => p.push(b'n'),
            Tv::U => p.push(b'u'),
        }
    }
    p
}

fn insert_payload(rel_id: u32, values: &[Tv]) -> Vec<u8> {
    let mut p = vec![b'I'];
    put_u32(&mut p, rel_id);
    p.push(b'N');
    p.extend_from_slice(&tuple_data(values));
    p
}

fn commit_payload(commit_lsn: u64, end_lsn: u64, ts: i64) -> Vec<u8> {
    let mut p = vec![b'C', 0];
    put_u64(&mut p, commit_lsn);
    put_u64(&mut p, end_lsn);
    put_i64(&mut p, ts);
    p
}

fn begin_payload(final_lsn: u64, ts: i64, xid: u32) -> Vec<u8> {
    let mut p = vec![b'B'];
    put_u64(&mut p, final_lsn);
    put_i64(&mut p, ts);
    put_u32(&mut p, xid);
    p
}

#[test]
fn relation_then_insert_converts() {
    let mut s = Session::new(None, false);
    let rel = relation_payload(7, "public", "users", &[(1, "id", 23, -1), (0, "name", 25, -1)]);
    let (ev, _bytes) = s.prepare_event(10, 0, &rel).expect("relation converts");
    s.advance(ev);

    let ins = insert_payload(7, &[Tv::T("1"), Tv::T("alice")]);
    let (ev2, _bytes2) = s.prepare_event(11, 0, &ins).expect("insert converts");
    match ev2.message {
        LogicalMessage::Insert { rel_id, new } => {
            assert_eq!(rel_id, 7);
            assert_eq!(new.cols.len(), 2);
            assert_eq!(new.cols[0].0, b"id".to_vec());
            assert!(matches!(new.cols[0].1, Value::Int(1)));
            assert_eq!(new.cols[1].0, b"name".to_vec());
            match &new.cols[1].1 {
                Value::Text(t) => assert_eq!(t, &b"alice".to_vec()),
                other => panic!("expected text value, got {:?}", value_tag(other)),
            }
        }
        _ => panic!("expected an insert event"),
    }
}

fn value_tag(v: &Value) -> &'static str {
    match v {
        Value::Null => "null",
        Value::Unchanged => "unchanged",
        Value::Bool(_) => "bool",
        Value::Int(_) => "int",
        Value::Float(_) => "float",
        Value::Text(_) => "text",
        Value::Binary(_) => "binary",
    }
}

#[test]
fn insert_unknown_relation_is_error() {
    let s = Session::new(None, false);
    let ins = insert_payload(7, &[Tv::T("1")]);
    let err = s.prepare_event(11, 0, &ins).unwrap_err();
    assert_eq!(err, ConvertError::UnknownRelation(7));
}

#[test]
fn insert_after_other_relation_still_fails() {
    let mut s = Session::new(None, false);
    let rel = relation_payload(8, "public", "other", &[(1, "id", 23, -1)]);
    let (ev, _) = s.prepare_event(10, 0, &rel).unwrap();
    s.advance(ev);
    let ins = insert_payload(7, &[Tv::T("1")]);
    assert_eq!(s.prepare_event(11, 0, &ins).unwrap_err(), ConvertError::UnknownRelation(7));
}

#[test]
fn unparsable_payload_skipped_and_watermark_still_advances() {
    let mut s = Session::new(None, false);
    let garbage = vec![0xffu8, 0x00, 0x12];
    let r = s.prepare_event(5, 0, &garbage);
    assert_eq!(r.unwrap_err(), ConvertError::Unparsable);
    assert_eq!(s.watermark, 0);

    let commit = commit_payload(42, 43, 0);
    let (ev, _) = s.prepare_event(43, 0, &commit).expect("commit converts");
    s.advance(ev);
    assert_eq!(s.watermark, 42);
}

#[test]
fn empty_payload_is_unparsable() {
    let s = Session::new(None, false);
    assert_eq!(s.prepare_event(1, 0, &Vec::new()).unwrap_err(), ConvertError::Unparsable);
}

#[test]
fn watermark_moves_only_on_commit_and_never_back() {
    let mut s = Session::new(Some(100), false);
    assert_eq!(s.watermark, 100);
    let begin = begin_payload(200, 0, 9);
    let (ev, _) = s.prepare_event(150, 0, &begin).unwrap();
    s.advance(ev);
    assert_eq!(s.watermark, 100);

    let (ev2, _) = s.prepare_event(150, 0, &commit_payload(200, 201, 0)).unwrap();
    s.advance(ev2);
    assert_eq!(s.watermark, 200);

    let (ev3, _) = s.prepare_event(150, 0, &commit_payload(150, 151, 0)).unwrap();
    s.advance(ev3);
    assert_eq!(s.watermark, 200);
}

#[test]
fn commit_event_json_document() {
    let commit = commit_payload(1, 2, 5);
    let cache = RelationCache::new();
    let ev = convert_replication_event(&cache, 9, 5, &commit).unwrap();
    let bytes = encode_event(&ev);
    assert_eq!(
        String::from_utf8(bytes).unwrap(),
        "{\"lsn\":9,\"timestamp\":5,\"message\":{\"commit\":{\"lsn\":1,\"end_lsn\":2}}}"
    );
}

#[test]
fn insert_event_json_document() {
    let mut s = Session::new(None, false);
    let rel = relation_payload(7, "public", "users", &[(1, "id", 23, -1), (0, "name", 25, -1)]);
    let (ev, _) = s.prepare_event(10, 0, &rel).unwrap();
    s.advance(ev);
    let ins = insert_payload(7, &[Tv::T("1"), Tv::T("alice")]);
    let (ev2, bytes) = s.prepare_event(11, 3, &ins).unwrap();
    let _ = ev2;
    assert_eq!(
        String::from_utf8(bytes).unwrap(),
        "{\"lsn\":11,\"timestamp\":3,\"message\":{\"insert\":{\"rel_id\":7,\"new\":{\"id\":1,\"name\":\"alice\"}}}}"
    );
}

#[test]
fn json_string_escaping() {
    let ev = DomainEvent {
        lsn: 0,
        timestamp: 0,
        message: LogicalMessage::Origin {
            commit_lsn: 0,
            name: b"a\"b\\c\nd".to_vec(),
        },
    };
    let bytes = encode_event(&ev);
    assert_eq!(
        String::from_utf8(bytes).unwrap(),
        "{\"lsn\":0,\"timestamp\":0,\"message\":{\"origin\":{\"commit_lsn\":0,\"name\":\"a\\\"b\\\\c\\u000Ad\"}}}"
    );
}

#[test]
fn unchanged_and_null_are_distinct_in_json() {
    let mut s = Session::new(None, false);
    let rel = relation_payload(3, "s", "t", &[(0, "a", 25, -1), (0, "b", 25, -1)]);
    let (ev, _) = s.prepare_event(1, 0, &rel).unwrap();
    s.advance(ev);
    let ins = insert_payload(3, &[Tv::U, Tv::N]);
    let (_, bytes) = s.prepare_event(2, 0, &ins).unwrap();
    assert_eq!(
        String::from_utf8(bytes).unwrap(),
        "{\"lsn\":2,\"timestamp\":0,\"message\":{\"insert\":{\"rel_id\":3,\"new\":{\"a\":{\"unchanged\":true},\"b\":null}}}}"
    );
}

#[test]
fn unknown_type_id_falls_back_to_binary() {
    let mut s = Session::new(None, false);
    let rel = relation_payload(4, "s", "t", &[(0, "x", 600, -1)]);
    let (ev, _) = s.prepare_event(1, 0, &rel).unwrap();
    s.advance(ev);
    let ins = insert_payload(4, &[Tv::T("AB")]);
    let (ev2, bytes) = s.prepare_event(2, 0, &ins).unwrap();
    match &ev2.message {
        LogicalMessage::Insert { new, .. } => {
            assert!(matches!(&new.cols[0].1, Value::Binary(b) if b == &vec![0x41, 0x42]));
        }
        _ => panic!("expected insert"),
    }
    assert_eq!(
        String::from_utf8(bytes).unwrap(),
        "{\"lsn\":2,\"timestamp\":0,\"message\":{\"insert\":{\"rel_id\":4,\"new\":{\"x\":[65,66]}}}}"
    );
}

#[test]
fn bool_float_decoding_and_bad_values() {
    let mut cache = RelationCache::new();
    let cols_msg = parse_logical(&relation_payload(
        9,
        "s",
        "t",
        &[(0, "ok", 16, -1), (0, "ratio", 701, -1)],
    ))
    .unwrap();
    match convert_message(&cache, cols_msg).unwrap() {
        LogicalMessage::Relation { rel_id, columns, .. } => cache.insert(rel_id, columns),
        _ => panic!("expected relation"),
    }

    let good = parse_logical(&insert_payload(9, &[Tv::T("t"), Tv::T("-1.5e3")])).unwrap();
    match convert_message(&cache, good).unwrap() {
        LogicalMessage::Insert { new, .. } => {
            assert!(matches!(new.cols[0].1, Value::Bool(true)));
            assert!(matches!(&new.cols[1].1, Value::Float(f) if f == &b"-1.5e3".to_vec()));
        }
        _ => panic!("expected insert"),
    }

    let bad_bool = parse_logical(&insert_payload(9, &[Tv::T("x"), Tv::T("1.0")])).unwrap();
    assert_eq!(convert_message(&cache, bad_bool).unwrap_err(), ConvertError::BadTuple);

    let bad_float = parse_logical(&insert_payload(9, &[Tv::T("f"), Tv::T("1.")])).unwrap();
    assert_eq!(convert_message(&cache, bad_float).unwrap_err(), ConvertError::BadTuple);
}

#[test]
fn int_decoding_edges() {
    let mut cache = RelationCache::new();
    match parse_logical(&relation_payload(2, "s", "t", &[(0, "n", 20, -1)])).unwrap() {
        RawMessage::Relation { rel_id, columns, .. } => cache.insert(rel_id, columns),
        _ => panic!("expected relation"),
    }
    let min = parse_logical(&insert_payload(2, &[Tv::T("-9223372036854775808")])).unwrap();
    match convert_message(&cache, min).unwrap() {
        LogicalMessage::Insert { new, .. } => {
            assert!(matches!(new.cols[0].1, Value::Int(i64::MIN)));
        }
        _ => panic!("expected insert"),
    }
    let over = parse_logical(&insert_payload(2, &[Tv::T("9223372036854775808")])).unwrap();
    assert_eq!(convert_message(&cache, over).unwrap_err(), ConvertError::BadTuple);
    let junk = parse_logical(&insert_payload(2, &[Tv::T("12x")])).unwrap();
    assert_eq!(convert_message(&cache, junk).unwrap_err(), ConvertError::BadTuple);
}

#[test]
fn arity_mismatch_is_bad_tuple() {
    let mut cache = RelationCache::new();
    match parse_logical(&relation_payload(2, "s", "t", &[(0, "n", 23, -1)])).unwrap() {
        RawMessage::Relation { rel_id, columns, .. } => cache.insert(rel_id, columns),
        _ => panic!("expected relation"),
    }
    let two = parse_logical(&insert_payload(2, &[Tv::T("1"), Tv::T("2")])).unwrap();
    assert_eq!(convert_message(&cache, two).unwrap_err(), ConvertError::BadTuple);
}

#[test]
fn schema_overwrite_uses_newest_columns() {
    let mut s = Session::new(None, false);
    let rel1 = relation_payload(7, "public", "users", &[(1, "id", 23, -1)]);
    let (ev, _) = s.prepare_event(1, 0, &rel1).unwrap();
    s.advance(ev);
    let rel2 = relation_payload(7, "public", "users", &[(1, "id", 23, -1), (0, "name", 25, -1)]);
    let (ev2, _) = s.prepare_event(2, 0, &rel2).unwrap();
    s.advance(ev2);
    let ins = insert_payload(7, &[Tv::T("1"), Tv::T("bob")]);
    assert!(s.prepare_event(3, 0, &ins).is_ok());
}

#[test]
fn resume_round_trip_through_encoded_record() {
    let commit = commit_payload(7, 8, 0);
    let cache = RelationCache::new();
    let ev = convert_replication_event(&cache, 0x1_0000_0005, 0, &commit).unwrap();
    let bytes = encode_event(&ev);
    assert_eq!(decode_lsn(&bytes), Some(0x1_0000_0005));
    assert_eq!(resume_from_tail(Some(&bytes)), Ok(Some(0x1_0000_0005)));
}

#[test]
fn resume_outcomes() {
    assert_eq!(resume_from_tail(None), Ok(None));
    let garbage = b"not a document".to_vec();
    assert_eq!(resume_from_tail(Some(&garbage)), Err(ResumeError::Undecodable));
}

#[test]
fn start_command_text() {
    let cmd = start_replication_command(&b"fluvio".to_vec(), &b"foo_pub".to_vec(), 0);
    assert_eq!(
        String::from_utf8(cmd).unwrap(),
        "START_REPLICATION SLOT \"fluvio\" LOGICAL 0/0 (\"proto_version\" '1', \"publication_names\" 'foo_pub')"
    );
    let cmd2 = start_replication_command(
        &b"slot".to_vec(),
        &b"p".to_vec(),
        (0x16u64 << 32) | 0xB374_D848,
    );
    assert_eq!(
        String::from_utf8(cmd2).unwrap(),
        "START_REPLICATION SLOT \"slot\" LOGICAL 16/B374D848 (\"proto_version\" '1', \"publication_names\" 'p')"
    );
}

#[test]
fn resumed_session_issues_command_at_tail_lsn() {
    let cache = RelationCache::new();
    let ev = convert_replication_event(&cache, 77, 0, &commit_payload(1, 2, 0)).unwrap();
    let record = encode_event(&ev);
    let resume = resume_from_tail(Some(&record)).unwrap();
    assert_eq!(resume, Some(77));
    let s = Session::new(resume, false);
    let cmd = start_replication_command(&b"s".to_vec(), &b"p".to_vec(), s.watermark);
    assert!(String::from_utf8(cmd).unwrap().contains(" LOGICAL 0/4D "));
}

#[test]
fn lsn_textual_form() {
    assert_eq!(lsn_text(0), b"0/0".to_vec());
    assert_eq!(lsn_text((0xABu64 << 32) | 0xCDEF), b"AB/CDEF".to_vec());
    assert_eq!(lsn_text(u64::MAX), b"FFFFFFFF/FFFFFFFF".to_vec());
    assert_eq!(lsn_text(1), b"0/1".to_vec());
}

#[test]
fn keepalive_timestamp_formula() {
    assert_eq!(keepalive_timestamp(946_684_800), 0);
    assert_eq!(keepalive_timestamp(946_684_801), 1_000_000);
    assert_eq!(keepalive_timestamp(1_600_000_000), 653_315_200_000_000);
    assert_eq!(keepalive_timestamp_micros(946_684_800_000_007), 7);
}

#[test]
fn keepalive_acknowledges_watermark_only_when_asked() {
    let mut s = Session::new(None, false);
    let (ev, _) = s.prepare_event(0, 0, &commit_payload(55, 56, 0)).unwrap();
    s.advance(ev);
    let su: StatusUpdate = s.keepalive_response(1, 946_684_800_000_123).unwrap();
    assert_eq!(su.written_lsn, 55);
    assert_eq!(su.flushed_lsn, 55);
    assert_eq!(su.applied_lsn, 55);
    assert_eq!(su.client_time, 123);
    assert_eq!(su.reply_requested, 0);
    assert!(s.keepalive_response(0, 946_684_800_000_123).is_none());
}

#[test]
fn no_transform_single_keyless_record() {
    let (key, value) = plan_single_emission(b"abc".to_vec());
    assert!(key.is_none());
    assert_eq!(value, b"abc".to_vec());
}

#[test]
fn batching_law_on_250_outputs() {
    let outputs: Vec<Vec<u8>> = (0..250u32).map(|i| i.to_be_bytes().to_vec()).collect();
    let batches = batch_records(outputs.clone());
    assert_eq!(batches.len(), 3);
    assert_eq!(batches[0].len(), 100);
    assert_eq!(batches[1].len(), 100);
    assert_eq!(batches[2].len(), 50);
    let flat: Vec<Vec<u8>> = batches.into_iter().flatten().collect();
    assert_eq!(flat, outputs);
}

#[test]
fn batching_edges() {
    assert_eq!(batch_records(Vec::new()).len(), 0);
    let one: Vec<Vec<u8>> = vec![b"x".to_vec()];
    let b = batch_records(one);
    assert_eq!(b.len(), 1);
    assert_eq!(b[0].len(), 1);
    let hundred: Vec<Vec<u8>> = (0..100u8).map(|i| vec![i]).collect();
    let b2 = batch_records(hundred);
    assert_eq!(b2.len(), 1);
    assert_eq!(b2[0].len(), 100);
}

#[test]
fn map_record_uppercases_value_and_keeps_key() {
    let (k, v) = pg_cdc::emit::map(Some(b"k1".to_vec()), &b"hello-World9".to_vec());
    assert_eq!(k, Some(b"k1".to_vec()));
    assert_eq!(v, b"HELLO-WORLD9".to_vec());
    let (k2, v2) = pg_cdc::emit::map(None, &Vec::new());
    assert!(k2.is_none());
    assert!(v2.is_empty());
}

#[test]
fn frame_parsing() {
    let mut f = vec![b'w'];
    put_u64(&mut f, 1);
    put_u64(&mut f, 2);
    put_i64(&mut f, 3);
    f.extend_from_slice(&commit_payload(1, 2, 3));
    match parse_frame(&f).unwrap() {
        Frame::XLogData { wal_start, wal_end, timestamp, payload } => {
            assert_eq!((wal_start, wal_end, timestamp), (1, 2, 3));
            assert_eq!(payload, commit_payload(1, 2, 3));
        }
        _ => panic!("expected xlogdata"),
    }

    let mut k = vec![b'k'];
    put_u64(&mut k, 9);
    put_i64(&mut k, -4);
    k.push(1);
    match parse_frame(&k).unwrap() {
        Frame::Keepalive { wal_end, timestamp, reply } => {
            assert_eq!((wal_end, timestamp, reply), (9, -4, 1));
        }
        _ => panic!("expected keepalive"),
    }

    assert!(parse_frame(&Vec::new()).is_none());
    assert!(parse_frame(&vec![b'z', 1, 2]).is_none());
}

#[test]
fn update_delete_truncate_convert() {
    let mut s = Session::new(None, false);
    let rel = relation_payload(5, "s", "t", &[(1, "id", 23, -1)]);
    let (ev, _) = s.prepare_event(1, 0, &rel).unwrap();
    s.advance(ev);

    let mut upd = vec![b'U'];
    put_u32(&mut upd, 5);
    upd.push(b'K');
    upd.extend_from_slice(&tuple_data(&[Tv::T("1")]));
    upd.push(b'N');
    upd.extend_from_slice(&tuple_data(&[Tv::T("2")]));
    let (ev_u, _) = s.prepare_event(2, 0, &upd).unwrap();
    match ev_u.message {
        LogicalMessage::Update { rel_id, old, new } => {
            assert_eq!(rel_id, 5);
            let old = old.expect("old tuple present");
            assert!(matches!(old.cols[0].1, Value::Int(1)));
            assert!(matches!(new.cols[0].1, Value::Int(2)));
        }
        _ => panic!("expected update"),
    }

    let mut del = vec![b'D'];
    put_u32(&mut del, 5);
    del.push(b'O');
    del.extend_from_slice(&tuple_data(&[Tv::T("2")]));
    let (ev_d, _) = s.prepare_event(3, 0, &del).unwrap();
    assert!(matches!(ev_d.message, LogicalMessage::Delete { rel_id: 5, .. }));

    let mut tr = vec![b'T'];
    put_u32(&mut tr, 2);
    tr.push(3);
    put_u32(&mut tr, 5);
    put_u32(&mut tr, 6);
    let (ev_t, bytes) = s.prepare_event(4, 0, &tr).unwrap();
    match &ev_t.message {
        LogicalMessage::Truncate { options, rel_ids } => {
            assert_eq!(*options, 3);
            assert_eq!(rel_ids, &vec![5, 6]);
        }
        _ => panic!("expected truncate"),
    }
    assert_eq!(
        String::from_utf8(bytes).unwrap(),
        "{\"lsn\":4,\"timestamp\":0,\"message\":{\"truncate\":{\"options\":3,\"rel_ids\":[5,6]}}}"
    );
}

#[test]
fn trailing_bytes_make_payload_unparsable() {
    let mut p = commit_payload(1, 2, 3);
    p.push(0);
    assert!(parse_logical(&p).is_none());
    let mut q = commit_payload(1, 2, 3);
    q.pop();
    assert!(parse_logical(&q).is_none());
}

#[test]
fn negative_timestamp_and_begin_json() {
    let cache = RelationCache::new();
    let ev = convert_replication_event(&cache, 1, -4, &begin_payload(20, 0, 33)).unwrap();
    let bytes = encode_event(&ev);
    assert_eq!(
        String::from_utf8(bytes).unwrap(),
        "{\"lsn\":1,\"timestamp\":-4,\"message\":{\"begin\":{\"xid\":33,\"final_lsn\":20}}}"
    );
}

#[test]
fn float_exponent_forms() {
    let mut cache = RelationCache::new();
    match parse_logical(&relation_payload(1, "s", "t", &[(0, "x", 700, -1)])).unwrap() {
        RawMessage::Relation { rel_id, columns, .. } => cache.insert(rel_id, columns),
        _ => panic!("expected relation"),
    }
    for ok in ["1", "1.5", "-0.25", "1e+30", "2E-7", "3e4"] {
        let m = parse_logical(&insert_payload(1, &[Tv::T(ok)])).unwrap();
        assert!(convert_message(&cache, m).is_ok(), "{} should decode", ok);
    }
    for bad in ["", "-", ".5", "1.", "1e", "1e+", "NaN"] {
        let m = parse_logical(&insert_payload(1, &[Tv::T(bad)])).unwrap();
        assert!(convert_message(&cache, m).is_err(), "{} should be rejected", bad);
    }
}

#[test]
fn resume_rejects_truncated_or_padded_documents() {
    // A record that opens like a document but is not one decodes as
    // nothing: resume must refuse it rather than guess.
    let half = b"{\"lsn\":5,x".to_vec();
    assert_eq!(decode_lsn(&half), None);
    assert_eq!(resume_from_tail(Some(&half)), Err(ResumeError::Undecodable));

    let cache = RelationCache::new();
    let ev = convert_replication_event(&cache, 9, 5, &commit_payload(1, 2, 5)).unwrap();
    let good = encode_event(&ev);
    let mut padded = good.clone();
    padded.push(b' ');
    assert_eq!(resume_from_tail(Some(&padded)), Err(ResumeError::Undecodable));
    let mut truncated = good.clone();
    truncated.pop();
    assert_eq!(resume_from_tail(Some(&truncated)), Err(ResumeError::Undecodable));
    let mut tampered = good.clone();
    let mid = tampered.len() / 2;
    tampered[mid] = b'!';
    assert_eq!(resume_from_tail(Some(&tampered)), Err(ResumeError::Undecodable));
    assert_eq!(resume_from_tail(Some(&good)), Ok(Some(9)));
}

#[test]
fn resume_decodes_every_event_shape() {
    let mut s = Session::new(None, false);
    let payloads: Vec<Vec<u8>> = vec![
        begin_payload(20, 7, 33),
        relation_payload(7, "public", "users", &[(1, "id", 23, -1), (0, "name", 25, -1)]),
        insert_payload(7, &[Tv::T("1"), Tv::T("alice")]),
        {
            let mut upd = vec![b'U'];
            put_u32(&mut upd, 7);
            upd.push(b'K');
            upd.extend_from_slice(&tuple_data(&[Tv::T("1"), Tv::N]));
            upd.push(b'N');
            upd.extend_from_slice(&tuple_data(&[Tv::T("2"), Tv::U]));
            upd
        },
        {
            let mut del = vec![b'D'];
            put_u32(&mut del, 7);
            del.push(b'O');
            del.extend_from_slice(&tuple_data(&[Tv::T("2"), Tv::T("bob\"\\x")]));
            del
        },
        {
            let mut tr = vec![b'T'];
            put_u32(&mut tr, 2);
            tr.push(3);
            put_u32(&mut tr, 7);
            put_u32(&mut tr, 8);
            tr
        },
        {
            let mut org = vec![b'O'];
            put_u64(&mut org, 44);
            org.extend_from_slice(b"site\n1");
            org.push(0);
            org
        },
        commit_payload(77, 78, -6),
    ];
    for (k, p) in payloads.iter().enumerate() {
        let lsn = 100 + k as u64;
        let (ev, bytes) = s.prepare_event(lsn, -3, p).expect("payload converts");
        assert_eq!(
            resume_from_tail(Some(&bytes)),
            Ok(Some(lsn)),
            "record {} should decode",
            k
        );
        s.advance(ev);
    }
}

#[test]
fn startup_decisions() {
    let topic = b"events".to_vec();
    match session_startup(topic.clone(), false, None, false) {
        Err(e) => assert_eq!(e, FatalError::TopicNotFound(topic.clone())),
        Ok(_) => panic!("a missing topic must be fatal"),
    }
    let garbage = b"junk".to_vec();
    match session_startup(topic.clone(), true, Some(&garbage), false) {
        Err(e) => assert_eq!(e, FatalError::ResumeDecode),
        Ok(_) => panic!("an unreadable tail record must be fatal"),
    }
    let s = session_startup(topic.clone(), true, None, true).unwrap();
    assert_eq!(s.watermark, 0);
    assert!(s.has_transform);

    let cache = RelationCache::new();
    let ev = convert_replication_event(&cache, 55, 0, &commit_payload(1, 2, 0)).unwrap();
    let rec = encode_event(&ev);
    let s2 = session_startup(topic, true, Some(&rec), false).unwrap();
    assert_eq!(s2.watermark, 55);
}

#[test]
fn emission_path_follows_transform_selector() {
    let plain = Session::new(None, false);
    match plain.plan_emission(b"abc".to_vec()) {
        EmissionPath::Single(key, value) => {
            assert!(key.is_none());
            assert_eq!(value, b"abc".to_vec());
        }
        _ => panic!("expected the single-record path"),
    }
    let with_t = Session::new(None, true);
    match with_t.plan_emission(b"abc".to_vec()) {
        EmissionPath::Transform(input) => assert_eq!(input, b"abc".to_vec()),
        _ => panic!("expected the transform path"),
    }
}
