//! Resource tables addressed by generational handles, and the resources a render
//! pass reads from them.
use vstd::prelude::*;
use crate::types::{Extent3d, Id, IndexFormat, InputStepMode, TextureFormat};

verus! {

/// One slot of a table: the epoch it is in and what it holds.
#[derive(Clone, Debug)]
pub struct Slot<T> {
    pub epoch: u32,
    pub value: Option<T>,
}

/// A table of resources. A handle resolves only while its epoch is the slot's epoch,
/// so a handle to a removed resource never reaches the slot's next tenant.
#[derive(Clone, Debug)]
pub struct Storage<T> {
    pub slots: Vec<Slot<T>>,
}

impl<T> Storage<T> {
    /// What `id` resolves to.
    pub open spec fn lookup(&self, id: Id) -> Option<T> {
        if id.index < self.slots@.len() && self.slots@[id.index as int].epoch == id.epoch {
            self.slots@[id.index as int].value
        } else {
            None
        }
    }

    pub fn new() -> (r: Self)
        ensures
            forall|id: Id| (#[trigger] r.lookup(id)) is None,
            r.slots@.len() == 0,
    {
        Storage { slots: Vec::new() }
    }

    /// The resource `id` stands for, if it is still there.
    pub fn get(&self, id: Id) -> (r: Option<&T>)
        ensures
            match r {
                Some(v) => self.lookup(id) == Some(*v),
                None => self.lookup(id) is None,
            },
    {
        let i = id.index as usize;
        if i < self.slots.len() && self.slots[i].epoch == id.epoch {
            match &self.slots[i].value {
                Some(v) => Some(v),
                None => None,
            }
        } else {
            None
        }
    }

    /// Stores `value` in a new slot and returns its handle; no other handle changes
    /// what it resolves to.
    pub fn insert(&mut self, value: T) -> (r: Id)
        requires
            old(self).slots@.len() < u32::MAX,
        ensures
            final(self).lookup(r) == Some(value),
            final(self).slots@ == old(self).slots@.push(Slot { epoch: 0, value: Some(value) }),
            forall|id: Id| id != r ==> #[trigger] final(self).lookup(id) == old(self).lookup(id),
    {
        let index = self.slots.len() as u32;
        self.slots.push(Slot { epoch: 0, value: Some(value) });
        Id { index, epoch: 0 }
    }

    /// Takes the resource `id` stands for out of its slot, leaving the slot empty in
    /// the same epoch so that `put` can return it.
    pub fn take(&mut self, id: Id) -> (r: Option<T>)
        ensures
            r == old(self).lookup(id),
            final(self).slots@.len() == old(self).slots@.len(),
            forall|i: int| 0 <= i < old(self).slots@.len() && i != id.index ==> #[trigger] final(self).slots@[i] == old(self).slots@[i],
            r is Some ==> final(self).slots@[id.index as int].epoch == id.epoch && final(self).slots@[id.index as int].value is None,
            r is None ==> final(self).slots@ == old(self).slots@,
    {
        let i = id.index as usize;
        if i < self.slots.len() && self.slots[i].epoch == id.epoch {
            let slot = self.slots.remove(i);
            self.slots.insert(i, Slot { epoch: slot.epoch, value: None });
            assert(slot.value is None ==> self.slots@ =~= old(self).slots@);
            slot.value
        } else {
            None
        }
    }

    /// Puts `value` back into the slot of `id`.
    pub fn put(&mut self, id: Id, value: T)
        requires
            id.index < old(self).slots@.len(),
            old(self).slots@[id.index as int].epoch == id.epoch,
        ensures
            final(self).slots@ == old(self).slots@.update(id.index as int, Slot { epoch: id.epoch, value: Some(value) }),
    {
        let i = id.index as usize;
        self.slots.remove(i);
        self.slots.insert(i, Slot { epoch: id.epoch, value: Some(value) });
    }

    /// Removes the resource `id` stands for; the slot moves to its next epoch, so `id`
    /// resolves to nothing from now on. No other handle changes what it resolves to.
    pub fn remove(&mut self, id: Id) -> (r: Option<T>)
        ensures
            r == old(self).lookup(id),
            final(self).lookup(id) is None,
            forall|other: Id|
                other != id && old(self).lookup(other) is Some ==> #[trigger] final(self).lookup(
                    other,
                ) == old(self).lookup(other),
    {
        let i = id.index as usize;
        if i < self.slots.len() && self.slots[i].epoch == id.epoch {
            let slot = self.slots.remove(i);
            let next = if slot.epoch < u32::MAX { slot.epoch + 1 } else { 0 };
            self.slots.insert(i, Slot { epoch: next, value: None });
            slot.value
        } else {
            None
        }
    }
}

/// Buffer usage capabilities.
pub const BUFFER_USAGE_INDEX: u32 = 0x10;
pub const BUFFER_USAGE_VERTEX: u32 = 0x20;
pub const BUFFER_USAGE_INDIRECT: u32 = 0x100;

/// Texture usage capability for use as an attachment.
pub const TEXTURE_USAGE_OUTPUT_ATTACHMENT: u32 = 0x10;

/// Buffer uses recorded in a tracker.
pub const BUFFER_USE_INDEX: u32 = 0x10;
pub const BUFFER_USE_VERTEX: u32 = 0x20;
pub const BUFFER_USE_INDIRECT: u32 = 0x100;
pub const BUFFER_USE_STORAGE_STORE: u32 = 0x80;

/// Texture uses recorded in a tracker.
pub const TEXTURE_USE_SAMPLED: u32 = 0x4;
pub const TEXTURE_USE_ATTACHMENT_READ: u32 = 0x10;
pub const TEXTURE_USE_ATTACHMENT_WRITE: u32 = 0x20;
pub const TEXTURE_USE_STORAGE_STORE: u32 = 0x80;

pub open spec fn has_bits(set: u32, bits: u32) -> bool {
    set & bits == bits
}

#[derive(Clone, Copy, Debug)]
pub struct Buffer {
    pub usage: u32,
    pub size: u64,
}

#[derive(Clone, Copy, Debug)]
pub struct Texture {
    pub usage: u32,
}

/// Which aspects of an image a view covers.
#[derive(PartialEq, Eq, Structural, Clone, Copy, Debug, Hash)]
pub struct Aspects {
    pub color: bool,
    pub depth: bool,
    pub stencil: bool,
}

/// What a texture view shows: part of a texture, or the current image of a swap chain.
#[derive(PartialEq, Eq, Structural, Clone, Copy, Debug)]
pub enum ViewSource {
    Native { texture_id: Id },
    SwapChain { swap_chain_id: Id },
}

#[derive(PartialEq, Eq, Structural, Clone, Copy, Debug)]
pub struct TextureView {
    pub format: TextureFormat,
    pub samples: u32,
    pub extent: Extent3d,
    pub aspects: Aspects,
    pub source: ViewSource,
}

/// The attachment formats and sample count that pipelines and bundles are built for.
#[derive(Clone, Debug)]
pub struct RenderPassContext {
    pub colors: Vec<TextureFormat>,
    pub resolves: Vec<TextureFormat>,
    pub depth_stencil: Option<TextureFormat>,
    pub sample_count: u32,
}

/// The value of a pass-context, for comparing two of them.
pub open spec fn context_view(c: RenderPassContext) -> (
    Seq<TextureFormat>,
    Seq<TextureFormat>,
    Option<TextureFormat>,
    u32,
) {
    (c.colors@, c.resolves@, c.depth_stencil, c.sample_count)
}

fn same_formats(a: &Vec<TextureFormat>, b: &Vec<TextureFormat>) -> (r: bool)
    ensures
        r == (a@ == b@),
{
    if a.len() != b.len() {
        return false;
    }
    let mut i: usize = 0;
    while i < a.len()
        invariant
            i <= a@.len(),
            a@.len() == b@.len(),
            forall|j: int| 0 <= j < i ==> a@[j] == b@[j],
        decreases a@.len() - i,
    {
        if a[i] != b[i] {
            return false;
        }
        i = i + 1;
    }
    assert(a@ =~= b@);
    true
}

impl RenderPassContext {
    /// Whether a pipeline or bundle built for `other` may be used in a pass of `self`.
    pub fn compatible(&self, other: &RenderPassContext) -> (r: bool)
        ensures
            r == (context_view(*self) == context_view(*other)),
    {
        same_formats(&self.colors, &other.colors) && same_formats(
            &self.resolves,
            &other.resolves,
        ) && self.depth_stencil == other.depth_stencil && self.sample_count
            == other.sample_count
    }
}

#[derive(Clone, Debug)]
pub struct RenderPipeline {
    pub pass_context: RenderPassContext,
    pub layout_id: Id,
    pub needs_blend_color: bool,
    pub needs_stencil_reference: bool,
    /// Whether the pipeline leaves depth and stencil untouched.
    pub depth_stencil_read_only: bool,
    pub index_format: IndexFormat,
    /// The stride and step mode of each vertex buffer slot the pipeline reads.
    pub vertex_strides: Vec<(u64, InputStepMode)>,
}

#[derive(Clone, Debug)]
pub struct PipelineLayout {
    pub bind_group_layout_ids: Vec<Id>,
}

/// The buffers and textures a bind group or bundle uses, with their uses.
#[derive(Clone, Debug)]
pub struct UsedResources {
    pub buffers: Vec<(Id, u32)>,
    pub textures: Vec<(Id, u32)>,
}

#[derive(Clone, Debug)]
pub struct BindGroup {
    pub layout_id: Id,
    pub dynamic_count: usize,
    pub used: UsedResources,
}

#[derive(Clone, Debug)]
pub struct RenderBundle {
    pub context: RenderPassContext,
    pub used: UsedResources,
}

} // verus!
