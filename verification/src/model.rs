//! Typed representation of WAL change records and column values.
//!
//! All text is carried as UTF-8 bytes (`Vec<u8>`): the wire protocol
//! delivers byte strings, and the JSON encoding consumes them byte-wise.

use vstd::prelude::*;

verus! {

/// A column of a relation, as announced by a Relation message:
/// flags (bit 0: part of the replica identity / key), name, type
/// identifier, and type modifier.
#[derive(Clone, Debug)]
pub struct Column {
    pub flags: u8,
    pub name: Vec<u8>,
    pub type_id: u32,
    pub type_modifier: i32,
}

/// A raw tuple value as it appears on the wire, before interpretation:
/// SQL NULL, a TOAST-omitted (unchanged) column, a textual value, or a
/// binary value.
#[derive(Debug)]
pub enum RawValue {
    Null,
    Unchanged,
    Text(Vec<u8>),
    Binary(Vec<u8>),
}

/// A decoded column value. Textual wire values are interpreted by the
/// column's type identifier; unrecognized type identifiers fall back to
/// the raw bytes. A float is carried in its validated textual form, since
/// its exact decimal text is what the wire provides and what the JSON
/// encoding emits. `Unchanged` is a distinct marker for TOAST-omitted
/// columns, deliberately not `Null`.
#[derive(Debug)]
pub enum Value {
    Null,
    Unchanged,
    Bool(bool),
    Int(i64),
    Float(Vec<u8>),
    Text(Vec<u8>),
    Binary(Vec<u8>),
}

/// An ordered pairing of column names with decoded values.
#[derive(Debug)]
pub struct Tuple {
    pub cols: Vec<(Vec<u8>, Value)>,
}

impl View for Tuple {
    type V = Seq<(Seq<u8>, Value)>;

    open spec fn view(&self) -> Seq<(Seq<u8>, Value)> {
        self.cols@.map_values(|p: (Vec<u8>, Value)| (p.0@, p.1))
    }
}

/// A `pgoutput` logical replication message, parsed from the payload of
/// an XLogData frame but not yet paired with cached schema information.
#[derive(Debug)]
pub enum RawMessage {
    Begin { final_lsn: u64, timestamp: i64, xid: u32 },
    Commit { flags: u8, commit_lsn: u64, end_lsn: u64, timestamp: i64 },
    Origin { commit_lsn: u64, name: Vec<u8> },
    Relation {
        rel_id: u32,
        namespace: Vec<u8>,
        name: Vec<u8>,
        replica_identity: u8,
        columns: Vec<Column>,
    },
    Type { id: u32, namespace: Vec<u8>, name: Vec<u8> },
    Insert { rel_id: u32, new: Vec<RawValue> },
    Update { rel_id: u32, old_kind: u8, old: Option<Vec<RawValue>>, new: Vec<RawValue> },
    Delete { rel_id: u32, old_kind: u8, old: Vec<RawValue> },
    Truncate { options: u8, rel_ids: Vec<u32> },
}

/// The message variant of a domain event: the raw message with positional
/// tuple values paired against the cached schema of the referenced
/// relation.
#[derive(Debug)]
pub enum LogicalMessage {
    Begin { xid: u32, final_lsn: u64 },
    Commit { lsn: u64, end_lsn: u64 },
    Origin { commit_lsn: u64, name: Vec<u8> },
    Relation { rel_id: u32, namespace: Vec<u8>, name: Vec<u8>, columns: Vec<Column> },
    Type { id: u32, namespace: Vec<u8>, name: Vec<u8> },
    Insert { rel_id: u32, new: Tuple },
    Update { rel_id: u32, old: Option<Tuple>, new: Tuple },
    Delete { rel_id: u32, old: Tuple },
    Truncate { options: u8, rel_ids: Vec<u32> },
}

/// A domain event: the position and server timestamp of the WAL record,
/// and its message variant.
#[derive(Debug)]
pub struct DomainEvent {
    pub lsn: u64,
    pub timestamp: i64,
    pub message: LogicalMessage,
}

impl LogicalMessage {
    /// The relation id a data message refers to, if it is one.
    pub open spec fn spec_data_rel_id(self) -> Option<u32> {
        match self {
            LogicalMessage::Insert { rel_id, .. } => Some(rel_id),
            LogicalMessage::Update { rel_id, .. } => Some(rel_id),
            LogicalMessage::Delete { rel_id, .. } => Some(rel_id),
            _ => None,
        }
    }
}

impl RawMessage {
    /// The relation id a raw data message refers to, if it is one.
    pub open spec fn spec_data_rel_id(self) -> Option<u32> {
        match self {
            RawMessage::Insert { rel_id, .. } => Some(rel_id),
            RawMessage::Update { rel_id, .. } => Some(rel_id),
            RawMessage::Delete { rel_id, .. } => Some(rel_id),
            _ => None,
        }
    }
}

} // verus!
