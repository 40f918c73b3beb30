//! Relation schema cache: relation id -> last announced column list.
//!
//! Built incrementally from Relation messages, read by the event
//! converter for every data message. Registration always overwrites
//! (schema changes mid-session announce the relation again), lookups
//! never create an entry, and nothing is ever evicted. The store is an
//! append-only list whose newest entry for an id wins, so the abstract
//! view is a map.

use vstd::prelude::*;
use crate::model::Column;

verus! {

/// The map described by an entry list where a later entry for the same
/// relation id overrides an earlier one.
pub open spec fn schema_map(entries: Seq<(u32, Vec<Column>)>) -> Map<u32, Seq<Column>>
    decreases entries.len(),
{
    if entries.len() == 0 {
        Map::empty()
    } else {
        schema_map(entries.drop_last()).insert(entries.last().0, entries.last().1@)
    }
}

/// An id that occurs in no entry is not in the map.
proof fn lemma_schema_map_absent(entries: Seq<(u32, Vec<Column>)>, rel_id: u32)
    requires
        forall|j: int| 0 <= j < entries.len() ==> (#[trigger] entries[j]).0 != rel_id,
    ensures
        !schema_map(entries).contains_key(rel_id),
    decreases entries.len(),
{
    if entries.len() > 0 {
        lemma_schema_map_absent(entries.drop_last(), rel_id);
    }
}

/// The map holds, for an id that occurs, the columns of its last entry.
proof fn lemma_schema_map_found(entries: Seq<(u32, Vec<Column>)>, rel_id: u32, i: int)
    requires
        0 <= i < entries.len(),
        entries[i].0 == rel_id,
        forall|j: int| i < j < entries.len() ==> (#[trigger] entries[j]).0 != rel_id,
    ensures
        schema_map(entries).contains_key(rel_id),
        schema_map(entries)[rel_id] == entries[i].1@,
    decreases entries.len(),
{
    if i == entries.len() - 1 {
    } else {
        lemma_schema_map_found(entries.drop_last(), rel_id, i);
    }
}

/// The relation schema cache. Owned exclusively by the session; updated
/// only when a Relation message is registered.
pub struct RelationCache {
    entries: Vec<(u32, Vec<Column>)>,
}

impl View for RelationCache {
    type V = Map<u32, Seq<Column>>;

    closed spec fn view(&self) -> Map<u32, Seq<Column>> {
        schema_map(self.entries@)
    }
}

impl RelationCache {
    /// An empty cache: a fresh session has observed no relations.
    pub fn new() -> (r: Self)
        ensures
            r@ == Map::<u32, Seq<Column>>::empty(),
    {
        RelationCache { entries: Vec::new() }
    }

    /// Register (or re-register) the columns of a relation. Always
    /// overwrites: the newest announcement for an id is the one the
    /// converter sees from now on.
    pub fn insert(&mut self, rel_id: u32, columns: Vec<Column>)
        ensures
            final(self)@ == old(self)@.insert(rel_id, columns@),
    {
        let ghost cols_view = columns@;
        self.entries.push((rel_id, columns));
        proof {
            assert(self.entries@.drop_last() =~= old(self).entries@);
            assert(self.entries@.last() == (rel_id, self.entries@.last().1));
            assert(self.entries@.last().1@ == cols_view);
        }
    }

    /// Look up the cached columns of a relation. A miss creates nothing:
    /// it is surfaced to the caller, which treats it as a conversion
    /// error for the message at hand.
    pub fn get(&self, rel_id: u32) -> (r: Option<&Vec<Column>>)
        ensures
            match r {
                Some(cols) => self@.contains_key(rel_id) && self@[rel_id] == cols@,
                None => !self@.contains_key(rel_id),
            },
    {
        let mut i: usize = self.entries.len();
        while i > 0
            invariant
                i <= self.entries.len(),
                forall|j: int| i <= j < self.entries.len()
                    ==> (#[trigger] self.entries@[j]).0 != rel_id,
            decreases i,
        {
            i = i - 1;
            if self.entries[i].0 == rel_id {
                proof {
                    lemma_schema_map_found(self.entries@, rel_id, i as int);
                }
                return Some(&self.entries[i].1);
            }
        }
        proof {
            lemma_schema_map_absent(self.entries@, rel_id);
        }
        None
    }

    /// Whether a Relation message for this id has been registered.
    pub fn contains(&self, rel_id: u32) -> (r: bool)
        ensures
            r == self@.contains_key(rel_id),
    {
        self.get(rel_id).is_some()
    }
}

} // verus!
