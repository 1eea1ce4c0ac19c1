//! The table of loaded chunks, kept in the engine's hash map.
//!
//! The map itself is not verified. Each function below makes one call into
//! it, and its contract states what that call does to the table's entries.

use crate::world::terrain::FarChunkData;
use vstd::prelude::*;

verus! {

/// The loaded far-grid chunks by chunk id, held in a `bevy::utils::HashMap`.
#[verifier::external_body]
pub struct ChunkTable {
    map: bevy::utils::HashMap<u64, FarChunkData>,
}

/// The entries that a table holds: the data of each loaded chunk under its id.
pub uninterp spec fn chunk_table_entries(table: ChunkTable) -> Map<u64, FarChunkData>;

impl ChunkTable {
    /// The entries that the table holds.
    pub open spec fn entries(self) -> Map<u64, FarChunkData> {
        chunk_table_entries(self)
    }

    /// `HashMap::new`: a table without entries.
    #[verifier::external_body]
    pub(crate) fn new() -> (table: ChunkTable)
        ensures
            forall|id: u64| !chunk_table_entries(table).contains_key(id),
    {
        ChunkTable { map: bevy::utils::HashMap::new() }
    }

    /// `HashMap::insert`: afterwards `id` maps to `data` and every other entry
    /// is as before. Returns the data that `id` mapped to before, if any.
    #[verifier::external_body]
    pub(crate) fn insert(&mut self, id: u64, data: FarChunkData) -> (previous: Option<FarChunkData>)
        ensures
            chunk_table_entries(*final(self)) == chunk_table_entries(*old(self)).insert(id, data),
            previous == (if chunk_table_entries(*old(self)).contains_key(id) {
                Some(chunk_table_entries(*old(self))[id])
            } else {
                None
            }),
    {
        self.map.insert(id, data)
    }

    /// `HashMap::get`: the data that `id` maps to, if any.
    #[verifier::external_body]
    pub(crate) fn get(&self, id: u64) -> (found: Option<FarChunkData>)
        ensures
            found == (if chunk_table_entries(*self).contains_key(id) {
                Some(chunk_table_entries(*self)[id])
            } else {
                None
            }),
    {
        self.map.get(&id).copied()
    }

    /// `HashMap::remove`: afterwards `id` has no entry and every other entry is
    /// as before. Returns the data that `id` mapped to before, if any.
    #[verifier::external_body]
    pub(crate) fn remove(&mut self, id: u64) -> (removed: Option<FarChunkData>)
        ensures
            chunk_table_entries(*final(self)) == chunk_table_entries(*old(self)).remove(id),
            removed == (if chunk_table_entries(*old(self)).contains_key(id) {
                Some(chunk_table_entries(*old(self))[id])
            } else {
                None
            }),
    {
        self.map.remove(&id)
    }

    /// `HashMap::keys`: every id that has an entry, each once, in no
    /// particular order.
    #[verifier::external_body]
    pub(crate) fn keys(&self) -> (ids: Vec<u64>)
        ensures
            ids@.no_duplicates(),
            forall|id: u64| ids@.contains(id) <==> chunk_table_entries(*self).contains_key(id),
    {
        self.map.keys().copied().collect()
    }

    /// `HashMap::clear`: afterwards the table has no entries.
    #[verifier::external_body]
    pub(crate) fn clear(&mut self)
        ensures
            forall|id: u64| !chunk_table_entries(*final(self)).contains_key(id),
    {
        self.map.clear()
    }
}

} // verus!
