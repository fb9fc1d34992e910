//! The schema cache: an in-memory mapping from a composite string key to a
//! parsed schema document. Pure data structure, no I/O; entries live until
//! they are explicitly cleared.

use vstd::prelude::*;

use crate::json::JsonValue;
use crate::text::str_eq;

verus! {

/// The mathematical contents of a run of cache entries: later insertions of a
/// key shadow earlier ones.
pub open spec fn entries_map(s: Seq<(String, JsonValue)>) -> Map<Seq<char>, JsonValue>
    decreases s.len(),
{
    if s.len() == 0 {
        Map::empty()
    } else {
        entries_map(s.drop_last()).insert(s.last().0@, s.last().1)
    }
}

/// A batch of entries folded into a map, in order: later entries shadow both
/// the map and earlier entries of the batch.
pub open spec fn insert_batch(
    m: Map<Seq<char>, JsonValue>,
    batch: Seq<(String, JsonValue)>,
) -> Map<Seq<char>, JsonValue>
    decreases batch.len(),
{
    if batch.len() == 0 {
        m
    } else {
        insert_batch(m, batch.drop_last()).insert(batch.last().0@, batch.last().1)
    }
}

proof fn lemma_entries_map_append(a: Seq<(String, JsonValue)>, b: Seq<(String, JsonValue)>)
    ensures
        entries_map(a + b) == insert_batch(entries_map(a), b),
    decreases b.len(),
{
    if b.len() == 0 {
        assert(a + b =~= a);
    } else {
        lemma_entries_map_append(a, b.drop_last());
        assert((a + b).drop_last() =~= a + b.drop_last());
        assert((a + b).last() == b.last());
    }
}

/// The value a map holds at `k`, if any.
pub open spec fn map_at(m: Map<Seq<char>, JsonValue>, k: Seq<char>) -> Option<JsonValue> {
    if m.contains_key(k) {
        Some(m[k])
    } else {
        None
    }
}

/// Law: a document bound in the cache is what a subsequent lookup of the
/// same key returns; looking it up changes nothing, so no source is ever
/// consulted again for it.
pub proof fn lemma_insert_then_get(
    m: Map<Seq<char>, JsonValue>,
    key: Seq<char>,
    document: JsonValue,
)
    ensures
        map_at(m.insert(key, document), key) == Some(document),
{
}

/// Law: every document a batch carries is served back by a lookup of its
/// key, provided no later entry of the batch rebinds that key.
pub proof fn lemma_batch_then_lookup(
    m: Map<Seq<char>, JsonValue>,
    batch: Seq<(String, JsonValue)>,
    i: int,
)
    requires
        0 <= i < batch.len(),
        forall|j: int| i < j < batch.len() ==> batch[j].0@ != batch[i].0@,
    ensures
        map_at(insert_batch(m, batch), batch[i].0@) == Some(batch[i].1),
    decreases batch.len(),
{
    if i == batch.len() - 1 {
    } else {
        assert(batch.drop_last()[i] == batch[i]);
        lemma_batch_then_lookup(m, batch.drop_last(), i);
    }
}

/// Law: after the cache is cleared, every lookup misses, whatever was bound
/// before; nothing re-resolves an emptied cache.
pub proof fn lemma_cleared_cache_misses(key: Seq<char>)
    ensures
        map_at(Map::<Seq<char>, JsonValue>::empty(), key) is None,
{
}

/// A key -> document store. Its whole behaviour is described by `contents()`,
/// a map from key characters to documents.
pub struct SchemaCache {
    entries: Vec<(String, JsonValue)>,
}

impl SchemaCache {
    /// The map this cache holds.
    pub closed spec fn contents(&self) -> Map<Seq<char>, JsonValue> {
        entries_map(self.entries@)
    }

    /// An empty cache.
    pub fn new() -> (r: SchemaCache)
        ensures
            r.contents() == Map::<Seq<char>, JsonValue>::empty(),
    {
        SchemaCache { entries: Vec::new() }
    }

    /// Binds `key` to `document`, replacing any earlier binding.
    pub fn insert(&mut self, key: String, document: JsonValue)
        ensures
            final(self).contents() == old(self).contents().insert(key@, document),
    {
        self.entries.push((key, document));
        proof {
            assert(self.entries@.drop_last() =~= old(self).entries@);
        }
    }

    /// Binds every entry of `batch`, in order; later entries shadow earlier
    /// ones and anything already bound.
    pub fn insert_all(&mut self, batch: Vec<(String, JsonValue)>)
        ensures
            final(self).contents() == insert_batch(old(self).contents(), batch@),
    {
        let mut batch = batch;
        let ghost b = batch@;
        self.entries.append(&mut batch);
        proof {
            lemma_entries_map_append(old(self).entries@, b);
        }
    }

    /// The document bound to `key`, if any.
    #[verifier::loop_isolation(false)]
    pub fn get(&self, key: &str) -> (r: Option<&JsonValue>)
        ensures
            match r {
                Some(d) => map_at(self.contents(), key@) == Some(*d),
                None => map_at(self.contents(), key@) is None,
            },
    {
        let mut i: usize = self.entries.len();
        proof {
            assert(self.entries@.take(i as int) =~= self.entries@);
        }
        while i > 0
            invariant
                i <= self.entries.len(),
                map_at(self.contents(), key@) == map_at(
                    entries_map(self.entries@.take(i as int)),
                    key@,
                ),
            decreases i,
        {
            i = i - 1;
            proof {
                assert(self.entries@.take(i + 1 as int).last() == self.entries@[i as int]);
                assert(self.entries@.take(i + 1 as int).drop_last() =~= self.entries@.take(
                    i as int,
                ));
            }
            if str_eq(self.entries[i].0.as_str(), key) {
                return Some(&self.entries[i].1);
            }
        }
        None
    }

    /// Removes every entry.
    pub fn clear(&mut self)
        ensures
            final(self).contents() == Map::<Seq<char>, JsonValue>::empty(),
    {
        self.entries.clear();
    }
}

} // verus!
