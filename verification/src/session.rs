//! The session core: resume-point discovery, the replication start
//! command, the keepalive acknowledgment rules, watermark and cache
//! advancement, and transform-output batching.
//!
//! All I/O stays outside. A driver receives frames, hands their plain
//! values in, performs the emissions and status updates this module
//! decides on, and feeds completion back by calling `advance` — so the
//! cache and the watermark move only after the event was sent, which is
//! what makes delivery at-least-once.

use vstd::prelude::*;
use crate::model::{Column, DomainEvent, LogicalMessage, RawMessage};
use crate::cache::RelationCache;
use crate::convert::{convert_error, convert_replication_event, convertible, converts_to, ConvertError};
use crate::json::{doc_lsn_val, encode_event, json_event, lemma_doc_lsn_of_event};
use crate::numfmt::{hex_seq, push_hex_u32};
use crate::wal::{enc_msg, sv_msg};

verus! {

/// Seconds from the Unix epoch to the server-native epoch
/// (2000-01-01T00:00:00Z). Status-update timestamps count microseconds
/// from the latter; using the Unix epoch instead corrupts the exchange.
pub const PG_EPOCH_UNIX_SECONDS: u64 = 946_684_800;

/// The client timestamp for a status update, from wall-clock Unix
/// seconds: microseconds elapsed since the server-native epoch.
pub fn keepalive_timestamp(unix_seconds: u64) -> (r: i64)
    requires
        unix_seconds >= PG_EPOCH_UNIX_SECONDS,
        (unix_seconds - PG_EPOCH_UNIX_SECONDS) * 1_000_000 <= i64::MAX,
    ensures
        r == (unix_seconds - PG_EPOCH_UNIX_SECONDS) * 1_000_000,
{
    let delta: u64 = unix_seconds - PG_EPOCH_UNIX_SECONDS;
    (delta * 1_000_000) as i64
}

/// The same timestamp from wall-clock Unix microseconds, for a caller
/// whose clock has that resolution.
pub fn keepalive_timestamp_micros(unix_micros: u64) -> (r: i64)
    requires
        unix_micros >= PG_EPOCH_UNIX_SECONDS * 1_000_000,
        unix_micros - PG_EPOCH_UNIX_SECONDS * 1_000_000 <= i64::MAX,
    ensures
        r == unix_micros - PG_EPOCH_UNIX_SECONDS * 1_000_000,
{
    (unix_micros - 946_684_800_000_000) as i64
}

/// The server-native textual form of an LSN: upper-case hex halves
/// joined by a slash.
pub open spec fn lsn_seq(lsn: u64) -> Seq<u8> {
    hex_seq((lsn as int / 0x1_0000_0000) as nat) + seq![0x2fu8] + hex_seq(
        (lsn as int % 0x1_0000_0000) as nat,
    )
}

/// Render an LSN in its server-native textual form.
pub fn lsn_text(lsn: u64) -> (r: Vec<u8>)
    ensures
        r@ == lsn_seq(lsn),
{
    let hi: u32 = (lsn / 0x1_0000_0000) as u32;
    let lo: u32 = (lsn % 0x1_0000_0000) as u32;
    let mut out: Vec<u8> = Vec::new();
    push_hex_u32(&mut out, hi);
    out.push(0x2f);
    push_hex_u32(&mut out, lo);
    proof {
        assert(out@ =~= lsn_seq(lsn));
    }
    out
}

/// The byte sequence `START_REPLICATION SLOT \"`.
pub open spec fn cmd_head() -> Seq<u8> {
    seq![0x53u8, 0x54, 0x41, 0x52, 0x54, 0x5f, 0x52, 0x45, 0x50, 0x4c, 0x49, 0x43, 0x41, 0x54, 0x49, 0x4f, 0x4e, 0x20, 0x53, 0x4c, 0x4f, 0x54, 0x20, 0x22]
}

fn push_cmd_head(out: &mut Vec<u8>)
    ensures
        final(out)@ == old(out)@ + cmd_head(),
{
    out.push(0x53);
    out.push(0x54);
    out.push(0x41);
    out.push(0x52);
    out.push(0x54);
    out.push(0x5f);
    out.push(0x52);
    out.push(0x45);
    out.push(0x50);
    out.push(0x4c);
    out.push(0x49);
    out.push(0x43);
    out.push(0x41);
    out.push(0x54);
    out.push(0x49);
    out.push(0x4f);
    out.push(0x4e);
    out.push(0x20);
    out.push(0x53);
    out.push(0x4c);
    out.push(0x4f);
    out.push(0x54);
    out.push(0x20);
    out.push(0x22);
    proof {
        assert(out@ =~= old(out)@ + cmd_head());
    }
}

/// The byte sequence `\" LOGICAL `.
pub open spec fn cmd_mid() -> Seq<u8> {
    seq![0x22u8, 0x20, 0x4c, 0x4f, 0x47, 0x49, 0x43, 0x41, 0x4c, 0x20]
}

fn push_cmd_mid(out: &mut Vec<u8>)
    ensures
        final(out)@ == old(out)@ + cmd_mid(),
{
    out.push(0x22);
    out.push(0x20);
    out.push(0x4c);
    out.push(0x4f);
    out.push(0x47);
    out.push(0x49);
    out.push(0x43);
    out.push(0x41);
    out.push(0x4c);
    out.push(0x20);
    proof {
        assert(out@ =~= old(out)@ + cmd_mid());
    }
}

/// The byte sequence ` (\"proto_version\" '1', \"publication_names\" '`.
pub open spec fn cmd_opts() -> Seq<u8> {
    seq![0x20u8, 0x28, 0x22, 0x70, 0x72, 0x6f, 0x74, 0x6f, 0x5f, 0x76, 0x65, 0x72, 0x73, 0x69, 0x6f, 0x6e, 0x22, 0x20, 0x27, 0x31, 0x27, 0x2c, 0x20, 0x22, 0x70, 0x75, 0x62, 0x6c, 0x69, 0x63, 0x61, 0x74, 0x69, 0x6f, 0x6e, 0x5f, 0x6e, 0x61, 0x6d, 0x65, 0x73, 0x22, 0x20, 0x27]
}

fn push_cmd_opts(out: &mut Vec<u8>)
    ensures
        final(out)@ == old(out)@ + cmd_opts(),
{
    out.push(0x20);
    out.push(0x28);
    out.push(0x22);
    out.push(0x70);
    out.push(0x72);
    out.push(0x6f);
    out.push(0x74);
    out.push(0x6f);
    out.push(0x5f);
    out.push(0x76);
    out.push(0x65);
    out.push(0x72);
    out.push(0x73);
    out.push(0x69);
    out.push(0x6f);
    out.push(0x6e);
    out.push(0x22);
    out.push(0x20);
    out.push(0x27);
    out.push(0x31);
    out.push(0x27);
    out.push(0x2c);
    out.push(0x20);
    out.push(0x22);
    out.push(0x70);
    out.push(0x75);
    out.push(0x62);
    out.push(0x6c);
    out.push(0x69);
    out.push(0x63);
    out.push(0x61);
    out.push(0x74);
    out.push(0x69);
    out.push(0x6f);
    out.push(0x6e);
    out.push(0x5f);
    out.push(0x6e);
    out.push(0x61);
    out.push(0x6d);
    out.push(0x65);
    out.push(0x73);
    out.push(0x22);
    out.push(0x20);
    out.push(0x27);
    proof {
        assert(out@ =~= old(out)@ + cmd_opts());
    }
}

/// The byte sequence `')`.
pub open spec fn cmd_tail() -> Seq<u8> {
    seq![0x27u8, 0x29]
}

fn push_cmd_tail(out: &mut Vec<u8>)
    ensures
        final(out)@ == old(out)@ + cmd_tail(),
{
    out.push(0x27);
    out.push(0x29);
    proof {
        assert(out@ =~= old(out)@ + cmd_tail());
    }
}


/// The replication start command, parameterized by slot, publication
/// and starting position.
pub open spec fn start_cmd(slot: Seq<u8>, publication: Seq<u8>, lsn: u64) -> Seq<u8> {
    cmd_head() + slot + cmd_mid() + lsn_seq(lsn) + cmd_opts() + publication + cmd_tail()
}

/// Build the replication start command verbatim: the session issues
/// exactly this text, with the resume position in server-native form.
pub fn start_replication_command(slot: &Vec<u8>, publication: &Vec<u8>, lsn: u64) -> (r: Vec<u8>)
    ensures
        r@ == start_cmd(slot@, publication@, lsn),
{
    let mut out: Vec<u8> = Vec::new();
    push_cmd_head(&mut out);
    push_bytes_session(&mut out, slot);
    push_cmd_mid(&mut out);
    let lt = lsn_text(lsn);
    push_bytes_session(&mut out, &lt);
    push_cmd_opts(&mut out);
    push_bytes_session(&mut out, publication);
    push_cmd_tail(&mut out);
    proof {
        assert(out@ =~= start_cmd(slot@, publication@, lsn));
    }
    out
}

/// Append a byte string.
fn push_bytes_session(out: &mut Vec<u8>, s: &Vec<u8>)
    ensures
        final(out)@ == old(out)@ + s@,
{
    let ghost base = out@;
    let mut i: usize = 0;
    while i < s.len()
        invariant
            i <= s@.len(),
            out@ == base + s@.take(i as int),
        decreases s@.len() - i,
    {
        proof {
            assert(s@.len() == s.len());
        }
        out.push(s[i]);
        i = i + 1;
        proof {
            assert(out@ =~= base + s@.take(i as int));
        }
    }
    proof {
        assert(base + s@.take(s@.len() as int) =~= base + s@);
    }
}

/// Failure of resume discovery: the tail record of the output log did
/// not decode, and the session refuses to guess a starting position
/// from unreadable state. Fatal at startup — distinct from an absent
/// record, which is the expected empty-log outcome.
#[derive(Clone, Copy, PartialEq, Eq, Structural, Debug)]
pub enum ResumeError {
    Undecodable,
}

/// Decide the resume position from the bounded tail read of the output
/// log: no record means no resume point (start from the slot's default
/// position); a record that decodes as a complete domain-event document
/// resumes exactly at its recorded position; anything else is fatal —
/// the session refuses to guess a resume point from unreadable state.
pub fn resume_from_tail(tail: Option<&Vec<u8>>) -> (r: Result<Option<u64>, ResumeError>)
    ensures
        match tail {
            None => r == Ok::<Option<u64>, ResumeError>(None),
            Some(rec) => match r {
                Ok(opt) => match opt {
                    Some(l) => doc_lsn_val(rec@) == Some(l as int) && exists|e: DomainEvent|
                        #[trigger] json_event(e) == rec@ && e.lsn == l,
                    None => false,
                },
                Err(err) => err == ResumeError::Undecodable,
            },
        },
{
    match tail {
        None => Ok(None),
        Some(rec) => match crate::json::decode_lsn(rec) {
            Some(v) => Ok(Some(v)),
            None => Err(ResumeError::Undecodable),
        },
    }
}

/// How one emitted event moves the watermark: it advances only on
/// Commit, to that commit's position, and never moves backwards.
pub open spec fn step_watermark(w: u64, m: LogicalMessage) -> u64 {
    match m {
        LogicalMessage::Commit { lsn, end_lsn } => if lsn > w {
            lsn
        } else {
            w
        },
        _ => w,
    }
}

/// How one emitted event moves the schema cache: only a Relation
/// message registers (or overwrites) an entry.
pub open spec fn step_schema(
    schema: Map<u32, Seq<Column>>,
    m: LogicalMessage,
) -> Map<u32, Seq<Column>> {
    match m {
        LogicalMessage::Relation { rel_id, namespace, name, columns } => schema.insert(
            rel_id,
            columns@,
        ),
        _ => schema,
    }
}

/// A standby status update: every position field acknowledges the
/// watermark — the last committed position — never a position merely
/// seen inside an open transaction.
#[derive(Debug)]
pub struct StatusUpdate {
    pub written_lsn: u64,
    pub flushed_lsn: u64,
    pub applied_lsn: u64,
    pub client_time: i64,
    pub reply_requested: u8,
}

/// The session's mutable state: everything the receive loop owns.
pub struct Session {
    /// The last committed LSN observed; what keepalives acknowledge.
    pub watermark: u64,
    /// Schemas learned from Relation messages in this session.
    pub cache: RelationCache,
    /// Whether a user transform is configured.
    pub has_transform: bool,
}

impl Session {
    /// A fresh session, starting from a discovered resume position or —
    /// with none — from the slot's default position, encoded as zero.
    pub fn new(resume: Option<u64>, has_transform: bool) -> (r: Self)
        ensures
            r.watermark == (match resume {
                Some(l) => l,
                None => 0u64,
            }),
            r.cache@ == Map::<u32, Seq<Column>>::empty(),
            r.has_transform == has_transform,
    {
        let watermark = match resume {
            Some(l) => l,
            None => 0,
        };
        Session { watermark, cache: RelationCache::new(), has_transform }
    }

    /// Convert one XLogData frame against the current cache and encode
    /// it for emission. Pure: nothing advances until the emission went
    /// through and `advance` is called.
    pub fn prepare_event(&self, wal_end: u64, timestamp: i64, payload: &Vec<u8>) -> (r: Result<
        (DomainEvent, Vec<u8>),
        ConvertError,
    >)
        ensures
            r matches Ok(p) ==> {
                &&& p.0.lsn == wal_end
                &&& p.0.timestamp == timestamp
                &&& p.1@ == json_event(p.0)
                &&& exists|raw: crate::model::RawMessage|
                    {
                        &&& #[trigger] enc_msg(raw) == payload@
                        &&& convertible(self.cache@, raw)
                        &&& converts_to(self.cache@, raw, p.0.message)
                    }
            },
            r matches Err(e) ==> e == ConvertError::Unparsable || exists|raw: crate::model::RawMessage|
                {
                    &&& #[trigger] enc_msg(raw) == payload@
                    &&& !convertible(self.cache@, raw)
                    &&& e == convert_error(self.cache@, raw)
                },
            r matches Err(e) && e == ConvertError::Unparsable <==> !sv_msg(payload@),
    {
        match convert_replication_event(&self.cache, wal_end, timestamp, payload) {
            Ok(ev) => {
                let bytes = encode_event(&ev);
                Ok((ev, bytes))
            },
            Err(e) => Err(e),
        }
    }

    /// Advance the session state after an event was emitted: register a
    /// Relation's schema, move the watermark on Commit. The watermark
    /// never decreases.
    pub fn advance(&mut self, ev: DomainEvent)
        ensures
            final(self).watermark == step_watermark(old(self).watermark, ev.message),
            final(self).watermark >= old(self).watermark,
            final(self).cache@ == step_schema(old(self).cache@, ev.message),
            final(self).has_transform == old(self).has_transform,
    {
        match ev.message {
            LogicalMessage::Relation { rel_id, namespace, name, columns } => {
                self.cache.insert(rel_id, columns);
            },
            LogicalMessage::Commit { lsn, end_lsn } => {
                if lsn > self.watermark {
                    self.watermark = lsn;
                }
            },
            _ => {},
        }
    }

    /// Answer a primary keepalive. A reply is produced exactly when the
    /// server requested one; it acknowledges the watermark in all three
    /// position fields, carries the server-native-epoch timestamp, and
    /// requests no reply in turn.
    pub fn keepalive_response(&self, reply_requested: u8, clock_unix_micros: u64) -> (r: Option<
        StatusUpdate,
    >)
        requires
            clock_unix_micros >= PG_EPOCH_UNIX_SECONDS * 1_000_000,
            clock_unix_micros - PG_EPOCH_UNIX_SECONDS * 1_000_000 <= i64::MAX,
        ensures
            match r {
                Some(su) => {
                    &&& reply_requested == 1
                    &&& su.written_lsn == self.watermark
                    &&& su.flushed_lsn == self.watermark
                    &&& su.applied_lsn == self.watermark
                    &&& su.client_time == clock_unix_micros - PG_EPOCH_UNIX_SECONDS * 1_000_000
                    &&& su.reply_requested == 0
                },
                None => reply_requested != 1,
            },
    {
        if reply_requested == 1 {
            let ts = keepalive_timestamp_micros(clock_unix_micros);
            Some(
                StatusUpdate {
                    written_lsn: self.watermark,
                    flushed_lsn: self.watermark,
                    applied_lsn: self.watermark,
                    client_time: ts,
                    reply_requested: 0,
                },
            )
        } else {
            None
        }
    }

    /// Choose the emission path for one encoded event, by whether a
    /// transform is configured.
    pub fn plan_emission(&self, encoded: Vec<u8>) -> (r: EmissionPath)
        ensures
            match r {
                EmissionPath::Single(key, value) => !self.has_transform && key is None && value
                    == encoded,
                EmissionPath::Transform(input) => self.has_transform && input == encoded,
            },
    {
        if self.has_transform {
            EmissionPath::Transform(encoded)
        } else {
            let (key, value) = crate::emit::plan_single_emission(encoded);
            EmissionPath::Single(key, value)
        }
    }
}

/// A fatal startup or session error: the connector process terminates
/// rather than continuing without its target or its position.
#[derive(PartialEq, Eq, Debug)]
pub enum FatalError {
    /// The target topic/stream does not exist downstream.
    TopicNotFound(Vec<u8>),
    /// The output log's tail record did not decode as a domain event.
    ResumeDecode,
    /// The replication start command was rejected; carries the slot and
    /// publication it was issued for.
    ReplicationStart { slot: Vec<u8>, publication: Vec<u8> },
}

/// The startup decisions that need no connection of their own: verify
/// the target topic exists (absence is fatal), decide the resume point
/// from the tail record (an unreadable record is fatal), and build the
/// fresh session.
pub fn session_startup(
    topic: Vec<u8>,
    topic_exists: bool,
    tail: Option<&Vec<u8>>,
    has_transform: bool,
) -> (r: Result<Session, FatalError>)
    ensures
        !topic_exists ==> r == Err::<Session, FatalError>(FatalError::TopicNotFound(topic)),
        topic_exists ==> match r {
            Ok(s) => {
                &&& s.cache@ == Map::<u32, Seq<Column>>::empty()
                &&& s.has_transform == has_transform
                &&& match tail {
                    None => s.watermark == 0,
                    Some(rec) => doc_lsn_val(rec@) == Some(s.watermark as int) && exists|
                        e: DomainEvent,
                    | #[trigger] json_event(e) == rec@ && e.lsn == s.watermark,
                }
            },
            Err(e) => tail is Some && e == FatalError::ResumeDecode,
        },
{
    if !topic_exists {
        return Err(FatalError::TopicNotFound(topic));
    }
    match resume_from_tail(tail) {
        Ok(resume) => Ok(Session::new(resume, has_transform)),
        Err(_) => Err(FatalError::ResumeDecode),
    }
}

/// The emission path for one encoded event: the two-variant selector of
/// the design. Without a transform the event goes downstream as exactly
/// one keyless record; with one, the encoded record is the transform's
/// input and its outputs are batched.
pub enum EmissionPath {
    Single(Option<Vec<u8>>, Vec<u8>),
    Transform(Vec<u8>),
}

/// The watermark after a sequence of emitted events.
pub open spec fn watermark_after(w0: u64, msgs: Seq<LogicalMessage>) -> u64
    decreases msgs.len(),
{
    if msgs.len() == 0 {
        w0
    } else {
        step_watermark(watermark_after(w0, msgs.drop_last()), msgs.last())
    }
}

/// The schema cache after a sequence of emitted events.
pub open spec fn schema_after(
    s0: Map<u32, Seq<Column>>,
    msgs: Seq<LogicalMessage>,
) -> Map<u32, Seq<Column>>
    decreases msgs.len(),
{
    if msgs.len() == 0 {
        s0
    } else {
        step_schema(schema_after(s0, msgs.drop_last()), msgs.last())
    }
}

/// Whether a message is a Relation announcement for id `r`.
pub open spec fn is_relation_for(m: LogicalMessage, r: u32) -> bool {
    match m {
        LogicalMessage::Relation { rel_id, namespace, name, columns } => rel_id == r,
        _ => false,
    }
}

/// The watermark is non-decreasing across the session: processing any
/// sequence of events never moves it below where it started.
pub proof fn lemma_watermark_monotone(w0: u64, msgs: Seq<LogicalMessage>)
    ensures
        watermark_after(w0, msgs) >= w0,
    decreases msgs.len(),
{
    if msgs.len() > 0 {
        lemma_watermark_monotone(w0, msgs.drop_last());
    }
}

/// The watermark is non-decreasing between any two points of the
/// session: after more events it is never lower than after a prefix of
/// them.
pub proof fn lemma_watermark_monotone_prefix(w0: u64, msgs: Seq<LogicalMessage>, i: int)
    requires
        0 <= i <= msgs.len(),
    ensures
        watermark_after(w0, msgs.take(i)) <= watermark_after(w0, msgs),
    decreases msgs.len(),
{
    if i < msgs.len() {
        assert(msgs.take(i) =~= msgs.drop_last().take(i));
        lemma_watermark_monotone_prefix(w0, msgs.drop_last(), i);
    } else {
        assert(msgs.take(i) =~= msgs);
    }
}

/// Relation visibility: starting from a schema `s0`, the cache holds id
/// `r` after a sequence of events exactly when it held it at the start
/// or some event of the sequence was a Relation message for `r`.
pub proof fn lemma_relation_visibility_from(
    s0: Map<u32, Seq<Column>>,
    msgs: Seq<LogicalMessage>,
    r: u32,
)
    ensures
        schema_after(s0, msgs).contains_key(r) <==> (s0.contains_key(r) || exists|i: int|
            0 <= i < msgs.len() && is_relation_for(#[trigger] msgs[i], r)),
    decreases msgs.len(),
{
    if msgs.len() > 0 {
        lemma_relation_visibility_from(s0, msgs.drop_last(), r);
        if is_relation_for(msgs.last(), r) {
            assert(is_relation_for(msgs[msgs.len() - 1], r));
        } else {
            if exists|i: int| 0 <= i < msgs.drop_last().len() && is_relation_for(
                #[trigger] msgs.drop_last()[i],
                r,
            ) {
                let i = choose|i: int|
                    0 <= i < msgs.drop_last().len() && is_relation_for(
                        #[trigger] msgs.drop_last()[i],
                        r,
                    );
                assert(is_relation_for(msgs[i], r));
            }
            if exists|i: int| 0 <= i < msgs.len() && is_relation_for(#[trigger] msgs[i], r) {
                let i = choose|i: int|
                    0 <= i < msgs.len() && is_relation_for(#[trigger] msgs[i], r);
                assert(is_relation_for(msgs.drop_last()[i], r));
            }
        }
    }
}

/// In a fresh session, a data message referencing relation id `r` finds
/// `r` in the cache exactly when a Relation message for `r` was
/// processed earlier; with `convert_message`'s contract this is the
/// success condition for converting it.
pub proof fn lemma_relation_visibility(msgs: Seq<LogicalMessage>, r: u32)
    ensures
        schema_after(Map::empty(), msgs).contains_key(r) <==> exists|i: int|
            0 <= i < msgs.len() && is_relation_for(#[trigger] msgs[i], r),
{
    lemma_relation_visibility_from(Map::empty(), msgs, r);
}

/// A data message referencing relation id `r` can convert only if a
/// Relation message for `r` was emitted earlier in the session; without
/// one, conversion fails and reports exactly the unknown relation.
pub proof fn lemma_data_message_visibility(msgs: Seq<LogicalMessage>, raw: RawMessage, r: u32)
    requires
        raw.spec_data_rel_id() == Some(r),
    ensures
        convertible(schema_after(Map::empty(), msgs), raw) ==> exists|i: int|
            0 <= i < msgs.len() && is_relation_for(#[trigger] msgs[i], r),
        !(exists|i: int| 0 <= i < msgs.len() && is_relation_for(#[trigger] msgs[i], r))
            ==> !convertible(schema_after(Map::empty(), msgs), raw) && convert_error(
            schema_after(Map::empty(), msgs),
            raw,
        ) == ConvertError::UnknownRelation(r),
{
    lemma_relation_visibility(msgs, r);
}

/// Resume correctness: the lsn member of an event's encoded document is
/// the event's own position — so any successful decode of that record
/// yields it, `decode_lsn`'s contract pinning every success to the lsn
/// member — and the start command a fresh session issues carries that
/// position verbatim, between the fixed command text on either side.
pub proof fn lemma_resume_round_trip(e: DomainEvent, slot: Seq<u8>, publication: Seq<u8>)
    ensures
        doc_lsn_val(json_event(e)) == Some(e.lsn as int),
        start_cmd(slot, publication, e.lsn) == cmd_head() + slot + cmd_mid() + lsn_seq(e.lsn)
            + cmd_opts() + publication + cmd_tail(),
{
    lemma_doc_lsn_of_event(e);
}

} // verus!
