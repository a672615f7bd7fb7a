use vstd::prelude::*;
use crate::world::Chunk;

verus! {

/// Coordinates of a chunk (16 x 16 x 16 bricks) in the world.
pub type ChunkCoord = (u32, u32, u32);

/// The chunks of a world, keyed by chunk coordinates, held in a
/// `hashbrown::HashMap`. What it holds is `chunk_map_contents`.
#[verifier::external_body]
pub struct ChunkMap {
    map: hashbrown::HashMap<ChunkCoord, Chunk>,
}

/// The key-value pairs held by a `ChunkMap`.
pub uninterp spec fn chunk_map_contents(m: ChunkMap) -> Map<ChunkCoord, Chunk>;

impl View for ChunkMap {
    type V = Map<ChunkCoord, Chunk>;

    open spec fn view(&self) -> Map<ChunkCoord, Chunk> {
        chunk_map_contents(*self)
    }
}

impl ChunkMap {
    /// `hashbrown::HashMap::new`: the new map holds nothing.
    #[verifier::external_body]
    pub(crate) fn new() -> (r: ChunkMap)
        ensures
            chunk_map_contents(r) =~= Map::empty(),
    {
        ChunkMap { map: hashbrown::HashMap::new() }
    }

    /// `hashbrown::HashMap::contains_key`: whether a value is held under `k`
    /// (tuples of `u32` compare by their fields).
    #[verifier::external_body]
    pub(crate) fn contains_key(&self, k: &ChunkCoord) -> (r: bool)
        ensures
            r == chunk_map_contents(*self).dom().contains(*k),
    {
        self.map.contains_key(k)
    }

    /// `hashbrown::HashMap::get`: the value held under `k`, if any.
    #[verifier::external_body]
    pub(crate) fn get(&self, k: &ChunkCoord) -> (r: Option<&Chunk>)
        ensures
            match r {
                Some(c) => chunk_map_contents(*self).dom().contains(*k) && *c == chunk_map_contents(*self)[*k],
                None => !chunk_map_contents(*self).dom().contains(*k),
            },
    {
        self.map.get(k)
    }

    /// `hashbrown::HashMap::insert`: afterwards `v` is held under `k`, all
    /// other pairs are kept, and the value that `k` held before is returned.
    #[verifier::external_body]
    pub(crate) fn insert(&mut self, k: ChunkCoord, v: Chunk) -> (r: Option<Chunk>)
        ensures
            chunk_map_contents(*final(self)) == chunk_map_contents(*old(self)).insert(k, v),
            match r {
                Some(o) => chunk_map_contents(*old(self)).dom().contains(k) && o == chunk_map_contents(*old(self))[k],
                None => !chunk_map_contents(*old(self)).dom().contains(k),
            },
    {
        self.map.insert(k, v)
    }
}

/// A set of chunk coordinates, held in a `hashbrown::HashSet`. What it holds
/// is `chunk_key_set_contents`.
#[verifier::external_body]
pub struct ChunkKeySet {
    set: hashbrown::HashSet<ChunkCoord>,
}

/// The coordinates held by a `ChunkKeySet`.
pub uninterp spec fn chunk_key_set_contents(s: ChunkKeySet) -> Set<ChunkCoord>;

impl View for ChunkKeySet {
    type V = Set<ChunkCoord>;

    open spec fn view(&self) -> Set<ChunkCoord> {
        chunk_key_set_contents(*self)
    }
}

impl ChunkKeySet {
    /// `hashbrown::HashSet::new`: the new set holds nothing.
    #[verifier::external_body]
    pub(crate) fn new() -> (r: ChunkKeySet)
        ensures
            chunk_key_set_contents(r) == Set::<ChunkCoord>::empty(),
    {
        ChunkKeySet { set: hashbrown::HashSet::new() }
    }

    /// `hashbrown::HashSet::contains`: whether `k` is held.
    #[verifier::external_body]
    pub(crate) fn contains(&self, k: &ChunkCoord) -> (r: bool)
        ensures
            r == chunk_key_set_contents(*self).contains(*k),
    {
        self.set.contains(k)
    }

    /// `hashbrown::HashSet::insert`: afterwards `k` is held, and the result
    /// tells whether it was absent before.
    #[verifier::external_body]
    pub(crate) fn insert(&mut self, k: ChunkCoord) -> (r: bool)
        ensures
            chunk_key_set_contents(*final(self)) == chunk_key_set_contents(*old(self)).insert(k),
            r == !chunk_key_set_contents(*old(self)).contains(k),
    {
        self.set.insert(k)
    }

    /// `hashbrown::HashSet::remove`: afterwards `k` is not held, and the
    /// result tells whether it was held before.
    #[verifier::external_body]
    pub(crate) fn remove(&mut self, k: &ChunkCoord) -> (r: bool)
        ensures
            chunk_key_set_contents(*final(self)) == chunk_key_set_contents(*old(self)).remove(*k),
            r == chunk_key_set_contents(*old(self)).contains(*k),
    {
        self.set.remove(k)
    }
}

} // verus!
