//! The registry of placed blocks: each has a unique entity id and a unique
//! coordinate; no two blocks ever occupy the same cell.

use crate::block::{Block, Coord, EntityId};
use vstd::prelude::*;

verus! {

/// Why a block could not be placed.
#[derive(Clone, Copy, Debug, PartialEq, Eq, Structural)]
pub enum PlaceError {
    /// The entity already stands for a placed block.
    DuplicateEntity,
    /// Another block already occupies the coordinate.
    Occupied,
}

/// No two blocks of `m` share a coordinate.
pub open spec fn coords_unique(m: Map<EntityId, Block>) -> bool {
    forall|a: EntityId, b: EntityId|
        m.contains_key(a) && m.contains_key(b) && a != b ==> #[trigger] m[a].coord
            != #[trigger] m[b].coord
}

/// Some block of `m` sits at `coord`.
pub open spec fn occupied(m: Map<EntityId, Block>, coord: Coord) -> bool {
    exists|id: EntityId| m.contains_key(id) && #[trigger] m[id].coord == coord
}

/// The placed blocks, by entity id.
pub struct World {
    entries: Vec<(EntityId, Block)>,
}

spec fn has_id(s: Seq<(EntityId, Block)>, id: EntityId) -> bool {
    exists|i: int| 0 <= i < s.len() && #[trigger] s[i].0 == id
}

spec fn entries_map(s: Seq<(EntityId, Block)>) -> Map<EntityId, Block> {
    Map::new(
        |id: EntityId| has_id(s, id),
        |id: EntityId| s[choose|i: int| 0 <= i < s.len() && #[trigger] s[i].0 == id].1,
    )
}

spec fn entries_wf(s: Seq<(EntityId, Block)>) -> bool {
    &&& forall|i: int, j: int|
        0 <= i < s.len() && 0 <= j < s.len() && i != j ==> #[trigger] s[i].0 != #[trigger] s[j].0
    &&& forall|i: int, j: int|
        0 <= i < s.len() && 0 <= j < s.len() && i != j ==> #[trigger] s[i].1.coord
            != #[trigger] s[j].1.coord
}

proof fn lemma_entry_lookup(s: Seq<(EntityId, Block)>, i: int)
    requires
        entries_wf(s),
        0 <= i < s.len(),
    ensures
        entries_map(s).contains_key(s[i].0),
        entries_map(s)[s[i].0] == s[i].1,
{
    let id = s[i].0;
    assert(has_id(s, id));
    let k = choose|k: int| 0 <= k < s.len() && #[trigger] s[k].0 == id;
    assert(k == i);
}

proof fn lemma_map_coords_unique(s: Seq<(EntityId, Block)>)
    requires
        entries_wf(s),
    ensures
        coords_unique(entries_map(s)),
{
    let m = entries_map(s);
    assert forall|a: EntityId, b: EntityId|
        m.contains_key(a) && m.contains_key(b) && a != b implies #[trigger] m[a].coord
        != #[trigger] m[b].coord by {
        let i = choose|i: int| 0 <= i < s.len() && #[trigger] s[i].0 == a;
        let j = choose|j: int| 0 <= j < s.len() && #[trigger] s[j].0 == b;
        lemma_entry_lookup(s, i);
        lemma_entry_lookup(s, j);
    }
}

impl View for World {
    type V = Map<EntityId, Block>;

    closed spec fn view(&self) -> Map<EntityId, Block> {
        entries_map(self.entries@)
    }
}

impl World {
    #[verifier::type_invariant]
    spec fn inv(&self) -> bool {
        entries_wf(self.entries@)
    }

    /// An empty world.
    pub fn new() -> (r: World)
        ensures
            r@ == Map::<EntityId, Block>::empty(),
            coords_unique(r@),
    {
        let r = World { entries: Vec::new() };
        assert(r@ =~= Map::<EntityId, Block>::empty());
        r
    }

    /// The block that `id` stands for, if any.
    pub fn get(&self, id: EntityId) -> (r: Option<Block>)
        ensures
            r == (if self@.contains_key(id) {
                Some(self@[id])
            } else {
                None::<Block>
            }),
    {
        proof {
            use_type_invariant(self);
        }
        let mut i: usize = 0;
        while i < self.entries.len()
            invariant
                i <= self.entries@.len(),
                entries_wf(self.entries@),
                forall|k: int| 0 <= k < i ==> #[trigger] self.entries@[k].0 != id,
            decreases self.entries@.len() - i,
        {
            if self.entries[i].0 == id {
                proof {
                    lemma_entry_lookup(self.entries@, i as int);
                }
                return Some(self.entries[i].1);
            }
            i += 1;
        }
        None
    }

    /// The entity of the block at `coord`, if any.
    pub fn block_at(&self, coord: Coord) -> (r: Option<EntityId>)
        ensures
            r is None <==> !occupied(self@, coord),
            r matches Some(id) ==> self@.contains_key(id) && self@[id].coord == coord,
    {
        proof {
            use_type_invariant(self);
        }
        let mut i: usize = 0;
        while i < self.entries.len()
            invariant
                i <= self.entries@.len(),
                entries_wf(self.entries@),
                forall|k: int| 0 <= k < i ==> #[trigger] self.entries@[k].1.coord != coord,
            decreases self.entries@.len() - i,
        {
            if self.entries[i].1.coord == coord {
                proof {
                    lemma_entry_lookup(self.entries@, i as int);
                }
                return Some(self.entries[i].0);
            }
            i += 1;
        }
        proof {
            if occupied(self@, coord) {
                let id = choose|id: EntityId| self@.contains_key(id) && #[trigger] self@[id].coord
                    == coord;
                let k = choose|k: int|
                    0 <= k < self.entries@.len() && #[trigger] self.entries@[k].0 == id;
                lemma_entry_lookup(self.entries@, k);
            }
        }
        None
    }

    /// Places `block` under `id`. Fails, leaving the world unchanged, when `id`
    /// already stands for a block, or else when another block occupies its coordinate.
    pub fn insert(&mut self, id: EntityId, block: Block) -> (r: Result<(), PlaceError>)
        ensures
            old(self)@.contains_key(id) ==> r == Err::<(), PlaceError>(PlaceError::DuplicateEntity),
            !old(self)@.contains_key(id) && occupied(old(self)@, block.coord) ==> r == Err::<
                (),
                PlaceError,
            >(PlaceError::Occupied),
            r is Ok <==> !old(self)@.contains_key(id) && !occupied(old(self)@, block.coord),
            r is Ok ==> final(self)@ == old(self)@.insert(id, block),
            r is Err ==> final(self)@ == old(self)@,
            coords_unique(final(self)@),
    {
        proof {
            use_type_invariant(&*self);
            lemma_map_coords_unique(self.entries@);
        }
        if self.get(id).is_some() {
            return Err(PlaceError::DuplicateEntity);
        }
        if self.block_at(block.coord).is_some() {
            return Err(PlaceError::Occupied);
        }
        let ghost before = self.entries@;
        assert forall|k: int| 0 <= k < before.len() implies #[trigger] before[k].0 != id
            && before[k].1.coord != block.coord by {
            lemma_entry_lookup(before, k);
        }
        let mut entries: Vec<(EntityId, Block)> = Vec::new();
        std::mem::swap(&mut entries, &mut self.entries);
        entries.push((id, block));
        proof {
            let after = entries@;
            assert(after == before.push((id, block)));
            assert forall|a: int, b: int|
                0 <= a < after.len() && 0 <= b < after.len() && a != b implies after[a].0
                != after[b].0 && #[trigger] after[a].1.coord != #[trigger] after[b].1.coord by {
                if a < before.len() && b < before.len() {
                    assert(after[a] == before[a] && after[b] == before[b]);
                } else if a < before.len() {
                    assert(after[a] == before[a]);
                } else {
                    assert(after[b] == before[b]);
                }
            }
            assert(entries_wf(after));
            assert forall|key: EntityId| #[trigger] has_id(after, key) == (has_id(before, key)
                || key == id) by {
                if has_id(before, key) {
                    let k = choose|k: int| 0 <= k < before.len() && #[trigger] before[k].0 == key;
                    assert(after[k].0 == key);
                }
                if has_id(after, key) && key != id {
                    let k = choose|k: int| 0 <= k < after.len() && #[trigger] after[k].0 == key;
                    assert(before[k].0 == key);
                }
                if key == id {
                    assert(after[before.len() as int].0 == id);
                }
            }
            assert forall|key: EntityId| #[trigger] entries_map(after).contains_key(key)
                implies entries_map(after)[key] == entries_map(before).insert(id, block)[key] by {
                let k = choose|k: int| 0 <= k < after.len() && #[trigger] after[k].0 == key;
                lemma_entry_lookup(after, k);
                if k < before.len() {
                    lemma_entry_lookup(before, k);
                }
            }
            assert(entries_map(after) =~= entries_map(before).insert(id, block));
            lemma_map_coords_unique(after);
        }
        self.entries = entries;
        Ok(())
    }

    /// Removes the block that `id` stands for and returns it; `None`, with the
    /// world unchanged, when there is none.
    pub fn remove(&mut self, id: EntityId) -> (r: Option<Block>)
        ensures
            r == (if old(self)@.contains_key(id) {
                Some(old(self)@[id])
            } else {
                None::<Block>
            }),
            final(self)@ == old(self)@.remove(id),
            coords_unique(final(self)@),
    {
        proof {
            use_type_invariant(&*self);
        }
        let ghost before = self.entries@;
        let mut i: usize = 0;
        while i < self.entries.len()
            invariant
                self.entries@ == before,
                old(self).entries@ == before,
                i <= before.len(),
                entries_wf(before),
                forall|k: int| 0 <= k < i ==> #[trigger] before[k].0 != id,
            decreases before.len() - i,
        {
            if self.entries[i].0 == id {
                let mut entries: Vec<(EntityId, Block)> = Vec::new();
                std::mem::swap(&mut entries, &mut self.entries);
                let (_, block) = entries.remove(i);
                proof {
                    lemma_entry_lookup(before, i as int);
                    let after = entries@;
                    assert(after == before.remove(i as int));
                    assert forall|a: int, b: int|
                        0 <= a < after.len() && 0 <= b < after.len() && a != b implies after[a].0
                        != after[b].0 && #[trigger] after[a].1.coord != #[trigger] after[b].1.coord by {
                        let a0 = if a < i { a } else { a + 1 };
                        let b0 = if b < i { b } else { b + 1 };
                        assert(after[a] == before[a0] && after[b] == before[b0]);
                    }
                    assert(entries_wf(after));
                    assert forall|key: EntityId| #[trigger] has_id(after, key) == (has_id(
                        before,
                        key,
                    ) && key != id) by {
                        if has_id(before, key) && key != id {
                            let k = choose|k: int|
                                0 <= k < before.len() && #[trigger] before[k].0 == key;
                            if k < i {
                                assert(after[k].0 == key);
                            } else {
                                assert(after[k - 1].0 == key);
                            }
                        }
                        if has_id(after, key) {
                            let k = choose|k: int|
                                0 <= k < after.len() && #[trigger] after[k].0 == key;
                            if k < i {
                                assert(before[k].0 == key);
                            } else {
                                assert(before[k + 1].0 == key);
                            }
                        }
                    }
                    assert forall|key: EntityId| #[trigger] entries_map(after).contains_key(key)
                        implies entries_map(after)[key] == entries_map(before)[key] by {
                        let k = choose|k: int| 0 <= k < after.len() && #[trigger] after[k].0 == key;
                        lemma_entry_lookup(after, k);
                        if k < i {
                            lemma_entry_lookup(before, k);
                        } else {
                            lemma_entry_lookup(before, k + 1);
                        }
                    }
                    assert(entries_map(after) =~= entries_map(before).remove(id));
                    lemma_map_coords_unique(after);
                }
                self.entries = entries;
                return Some(block);
            }
            i += 1;
        }
        proof {
            assert(!has_id(before, id));
            assert(entries_map(before) =~= entries_map(before).remove(id));
            lemma_map_coords_unique(before);
        }
        None
    }
}

/// Registers a new block at `coord` drawn by the face entities `textures`,
/// under the entity `entity`, and returns it. Fails, leaving the world
/// unchanged, as `World::insert` does.
pub fn create_block(world: &mut World, entity: EntityId, textures: [EntityId; 6], coord: Coord) -> (r:
    Result<Block, PlaceError>)
    ensures
        old(world)@.contains_key(entity) ==> r == Err::<Block, PlaceError>(
            PlaceError::DuplicateEntity,
        ),
        !old(world)@.contains_key(entity) && occupied(old(world)@, coord) ==> r == Err::<
            Block,
            PlaceError,
        >(PlaceError::Occupied),
        r is Ok <==> !old(world)@.contains_key(entity) && !occupied(old(world)@, coord),
        r matches Ok(b) ==> b.textures == textures && b.coord == coord && final(world)@ == old(
            world,
        )@.insert(entity, b),
        r is Err ==> final(world)@ == old(world)@,
{
    let block = Block { textures, coord };
    match world.insert(entity, block) {
        Ok(()) => Ok(block),
        Err(e) => Err(e),
    }
}

} // verus!
