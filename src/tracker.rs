//! Usage bookkeeping for the buffers and textures a pass touches.
use vstd::prelude::*;
use std::collections::HashMap;
use crate::resources::UsedResources;
use crate::types::Id;

verus! {

broadcast use vstd::std_specs::hash::group_hash_axioms;

/// The key a handle is tracked under.
pub open spec fn id_key(id: Id) -> u64 {
    (id.index as u64 + id.epoch as u64 * 0x1_0000_0000) as u64
}

fn key_of(id: Id) -> (r: u64)
    ensures
        r == id_key(id),
{
    id.index as u64 + id.epoch as u64 * 0x1_0000_0000
}

/// Whether two uses of one resource can stand together in a pass: the same use, or
/// uses none of which writes.
pub open spec fn uses_compatible(a: u32, b: u32, write_mask: u32) -> bool {
    a == b || (a | b) & write_mask == 0
}

/// Two uses of one resource that cannot stand together.
#[derive(PartialEq, Eq, Structural, Clone, Copy, Debug)]
pub struct UsageConflict {
    pub id: Id,
    pub old: u32,
    pub new: u32,
}

/// The uses after adding `usage` of `id` to `uses`, or the conflict that prevents it.
pub open spec fn use_step(uses: Map<u64, u32>, id: Id, usage: u32, write_mask: u32) -> Result<Map<u64, u32>, UsageConflict> {
    if uses.contains_key(id_key(id)) {
        let u = uses[id_key(id)];
        if uses_compatible(u, usage, write_mask) {
            Ok(uses.insert(id_key(id), u | usage))
        } else {
            Err(UsageConflict { id, old: u, new: usage })
        }
    } else {
        Ok(uses.insert(id_key(id), usage))
    }
}

/// The uses after adding each use of `list` in turn, or the first conflict.
pub open spec fn merge_uses(uses: Map<u64, u32>, list: Seq<(Id, u32)>, write_mask: u32) -> Result<Map<u64, u32>, UsageConflict>
    decreases list.len(),
{
    if list.len() == 0 {
        Ok(uses)
    } else {
        match use_step(uses, list[0].0, list[0].1, write_mask) {
            Err(e) => Err(e),
            Ok(m) => merge_uses(m, list.drop_first(), write_mask),
        }
    }
}

/// The use of each resource so far.
#[derive(Clone, Debug)]
pub struct UsageTracker {
    pub uses: HashMap<u64, u32>,
    pub write_mask: u32,
}

impl UsageTracker {
    /// The use recorded for `id`.
    pub open spec fn usage(&self, id: Id) -> Option<u32> {
        if self.uses@.contains_key(id_key(id)) {
            Some(self.uses@[id_key(id)])
        } else {
            None
        }
    }

    /// A tracker with nothing recorded, whose uses in `write_mask` write.
    pub fn new(write_mask: u32) -> (r: Self)
        ensures
            r.uses@ == Map::<u64, u32>::empty(),
            r.write_mask == write_mask,
    {
        UsageTracker { uses: HashMap::new(), write_mask }
    }

    /// The use recorded for `id`.
    pub fn query(&self, id: Id) -> (r: Option<u32>)
        ensures
            r == self.usage(id),
    {
        match self.uses.get(&key_of(id)) {
            Some(u) => Some(*u),
            None => None,
        }
    }

    /// Adds `usage` to the use of `id`; fails, and changes nothing, where the two
    /// cannot stand together.
    pub fn use_extend(&mut self, id: Id, usage: u32) -> (r: Result<(), UsageConflict>)
        ensures
            final(self).write_mask == old(self).write_mask,
            match old(self).usage(id) {
                None => r is Ok && final(self).uses@ == old(self).uses@.insert(id_key(id), usage),
                Some(u) => if uses_compatible(u, usage, old(self).write_mask) {
                    r is Ok && final(self).uses@ == old(self).uses@.insert(id_key(id), u | usage)
                } else {
                    r == Err::<(), UsageConflict>(UsageConflict { id, old: u, new: usage })
                        && final(self).uses@ == old(self).uses@
                },
            },
    {
        let k = key_of(id);
        match self.uses.get(&k) {
            None => {
                self.uses.insert(k, usage);
                Ok(())
            },
            Some(u) => {
                let u = *u;
                if u == usage || (u | usage) & self.write_mask == 0 {
                    self.uses.insert(k, u | usage);
                    Ok(())
                } else {
                    Err(UsageConflict { id, old: u, new: usage })
                }
            },
        }
    }

    /// Sets the use of `id` to `usage`, whatever it was.
    pub fn change_extend(&mut self, id: Id, usage: u32)
        ensures
            final(self).write_mask == old(self).write_mask,
            final(self).uses@ == old(self).uses@.insert(id_key(id), usage),
    {
        self.uses.insert(key_of(id), usage);
    }

    /// Adds each use of `used` in turn, stopping at the first conflict.
    pub fn merge_extend(&mut self, used: &Vec<(Id, u32)>) -> (r: Result<(), UsageConflict>)
        ensures
            final(self).write_mask == old(self).write_mask,
            match merge_uses(old(self).uses@, used@, old(self).write_mask) {
                Ok(m) => r is Ok && final(self).uses@ == m,
                Err(e) => r == Err::<(), UsageConflict>(e),
            },
    {
        let mut i: usize = 0;
        assert(used@.skip(0) =~= used@);
        while i < used.len()
            invariant
                i <= used@.len(),
                self.write_mask == old(self).write_mask,
                merge_uses(old(self).uses@, used@, self.write_mask) == merge_uses(self.uses@, used@.skip(i as int), self.write_mask),
            decreases used@.len() - i,
        {
            assert(used@.skip(i as int).drop_first() =~= used@.skip(i + 1));
            let (id, usage) = used[i];
            match self.use_extend(id, usage) {
                Err(e) => {
                    return Err(e);
                },
                Ok(()) => {},
            }
            i = i + 1;
        }
        assert(used@.skip(i as int).len() == 0);
        Ok(())
    }
}

/// The buffer and texture uses after adding those of `used`, or the first conflict.
pub open spec fn merge_both(buffers: UsageTracker, textures: UsageTracker, used: UsedResources) -> Result<(Map<u64, u32>, Map<u64, u32>), UsageConflict> {
    match merge_uses(buffers.uses@, used.buffers@, buffers.write_mask) {
        Err(e) => Err(e),
        Ok(mb) => match merge_uses(textures.uses@, used.textures@, textures.write_mask) {
            Err(e) => Err(e),
            Ok(mt) => Ok((mb, mt)),
        },
    }
}

/// The trackers of a pass: one for buffers and one for textures.
#[derive(Clone, Debug)]
pub struct TrackerSet {
    pub buffers: UsageTracker,
    pub textures: UsageTracker,
}

impl TrackerSet {
    pub fn new(buffer_write_mask: u32, texture_write_mask: u32) -> (r: Self)
        ensures
            r.buffers.uses@ == Map::<u64, u32>::empty(),
            r.textures.uses@ == Map::<u64, u32>::empty(),
            r.buffers.write_mask == buffer_write_mask,
            r.textures.write_mask == texture_write_mask,
    {
        TrackerSet {
            buffers: UsageTracker::new(buffer_write_mask),
            textures: UsageTracker::new(texture_write_mask),
        }
    }

    /// Adds the uses of a bind group or bundle.
    pub fn merge_extend(&mut self, used: &UsedResources) -> (r: Result<(), UsageConflict>)
        ensures
            final(self).buffers.write_mask == old(self).buffers.write_mask,
            final(self).textures.write_mask == old(self).textures.write_mask,
            match merge_uses(old(self).buffers.uses@, used.buffers@, old(self).buffers.write_mask) {
                Err(e) => r == Err::<(), UsageConflict>(e),
                Ok(mb) => match merge_uses(old(self).textures.uses@, used.textures@, old(self).textures.write_mask) {
                    Err(e) => r == Err::<(), UsageConflict>(e),
                    Ok(mt) => r is Ok && final(self).buffers.uses@ == mb && final(self).textures.uses@ == mt,
                },
            },
    {
        match self.buffers.merge_extend(&used.buffers) {
            Err(e) => {
                return Err(e);
            },
            Ok(()) => {},
        }
        self.textures.merge_extend(&used.textures)
    }
}

} // verus!
