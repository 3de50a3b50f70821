//! Interpreting a recorded render pass: each command is checked against the draw
//! state and the resources, and turned into backend operations.
use vstd::prelude::*;
use crate::codec::FramingError;
use crate::pass::PassError;
use crate::resources::{
    context_view, has_bits, BindGroup, Buffer, PipelineLayout, RenderBundle, RenderPassContext,
    RenderPipeline, Storage, Texture, TextureView, BUFFER_USAGE_INDEX, BUFFER_USAGE_INDIRECT,
    BUFFER_USAGE_VERTEX, BUFFER_USE_INDEX, BUFFER_USE_INDIRECT, BUFFER_USE_VERTEX,
};
use crate::slots::{slots_get, slots_len, slots_of, slots_push, slots_set};
use crate::state::{
    expect_layouts, index_limit, rate_limit, readiness, BindGroupPair, DrawError, OptionalState,
    State, VertexBufferState,
};
use crate::tracker::{merge_both, use_step, TrackerSet, UsageConflict};
use crate::model::{
    first_misaligned, lemma_leading_ok, leading_ok, prov_group, prov_offsets, run_groups, run_offsets, EntryView, bound_end, bound_id, bound_start, entries_view, entry_view, expect_view, lemma_rebind_view, rebind_ops, rebind_view, lemma_ready, op_view, ops_view, run_view, step_bind_group, step_bundle, step_draw,
    step_draw_indexed, step_draw_indirect, step_index_buffer, step_pipeline, step_vertex_buffer,
    follows, OpView, RunView,
};
use crate::types::{
    Color, Extent3d, Id, IndexFormat, InputStepMode, Rect, MAX_VERTEX_BUFFERS, WHOLE_SIZE,
};

verus! {

/// Dynamic offsets must be multiples of this.
pub const BIND_BUFFER_ALIGNMENT: u32 = 256;

/// One operation for the backend to record.
#[derive(Clone, Debug)]
pub enum BackendOp {
    /// Create the backend pass cached under `handle`, from the pass's key.
    CreateRenderPass { handle: u32 },
    /// Create a framebuffer of the pass's attachments for the backend pass `render_pass`.
    CreateFramebuffer { handle: u32, render_pass: u32, extent: Extent3d },
    /// Begin the pass, with viewport and scissor covering the whole extent.
    BeginRenderPass { render_pass: u32, framebuffer: u32, extent: Extent3d },
    BindPipeline { pipeline_id: Id },
    BindDescriptorSets { pipeline_layout_id: Id, first: u32, groups: Vec<Id>, offsets: Vec<u32> },
    BindIndexBuffer { buffer_id: Id, offset: u64, size: u64, format: IndexFormat },
    BindVertexBuffer { slot: u32, buffer_id: Id, offset: u64, size: Option<u64> },
    SetBlendConstants(Color),
    SetStencilReference(u32),
    SetViewport { rect: Rect<u32>, depth_min: u32, depth_max: u32 },
    SetScissor(Rect<i16>),
    Draw { first_vertex: u32, vertex_count: u32, first_instance: u32, instance_count: u32 },
    DrawIndexed {
        first_index: u32,
        index_count: u32,
        base_vertex: i32,
        first_instance: u32,
        instance_count: u32,
    },
    DrawIndirect { buffer_id: Id, offset: u64 },
    DrawIndexedIndirect { buffer_id: Id, offset: u64 },
    BeginDebugMarker { label: Vec<u8>, color: u32 },
    EndDebugMarker,
    InsertDebugMarker { label: Vec<u8>, color: u32 },
    ExecuteBundle(Id),
    EndRenderPass,
}

/// Why a render pass was refused; the whole command buffer is then discarded.
#[derive(PartialEq, Eq, Structural, Clone, Copy, Debug)]
pub enum RenderPassError {
    Framing(FramingError),
    Attachments(PassError),
    Draw(DrawError),
    Conflict(UsageConflict),
    InvalidBuffer { id: Id },
    InvalidTexture { id: Id },
    InvalidBindGroup { id: Id },
    InvalidPipeline { id: Id },
    InvalidPipelineLayout { id: Id },
    InvalidBundle { id: Id },
    MissingBufferUsage { id: Id, usage: u32 },
    MissingTextureUsage { id: Id, usage: u32 },
    InvalidBufferRange { id: Id },
    BindGroupIndexOutOfRange { index: u32 },
    DynamicOffsetCountMismatch { expected: u32, actual: u32 },
    MisalignedDynamicOffset { offset: u32 },
    IncompatiblePipeline { id: Id },
    PipelineNotReadOnly { id: Id },
    IncompatibleBundle { id: Id },
    VertexSlotOutOfRange { slot: u32 },
    VertexBeyondLimit { end: u64, limit: u64 },
    InstanceBeyondLimit { end: u64, limit: u64 },
    IndexBeyondLimit { end: u64, limit: u64 },
    DebugGroupUnderflow,
    DebugGroupOverflow,
    TooManyBackendObjects,
    InvalidCommandBuffer { id: Id },
    InvalidDevice { id: Id },
}

/// The resource tables a pass reads.
#[derive(Clone, Debug)]
pub struct Hub {
    pub buffers: Storage<Buffer>,
    pub textures: Storage<Texture>,
    pub views: Storage<TextureView>,
    pub bind_groups: Storage<BindGroup>,
    pub pipeline_layouts: Storage<PipelineLayout>,
    pub render_pipelines: Storage<RenderPipeline>,
    pub render_bundles: Storage<RenderBundle>,
}

/// A pass being interpreted: its draw state, the uses it has made, and the backend
/// operations so far.
#[derive(Debug)]
pub struct PassRun {
    pub state: State,
    pub trackers: TrackerSet,
    pub ops: Vec<BackendOp>,
    pub context: RenderPassContext,
    pub is_ds_read_only: bool,
}

/// The slots after binding `total_size` bytes at `slot`: missing slots before it are
/// filled with empty ones; a slot keeps the stride and step mode it had.
pub open spec fn bind_vertex_slot(inputs: Seq<VertexBufferState>, slot: int, total_size: u64) -> Seq<VertexBufferState> {
    let empty = VertexBufferState { total_size: 0, stride: 0, rate: InputStepMode::Vertex };
    let padded = if slot < inputs.len() {
        inputs
    } else {
        inputs + Seq::new((slot + 1 - inputs.len()) as nat, |i: int| empty)
    };
    padded.update(slot, VertexBufferState { total_size, ..padded[slot] })
}

/// The slots after a pipeline with `strides` is bound: a slot it reads takes its
/// stride and step mode, any other gets a zero stride.
pub open spec fn apply_strides(inputs: Seq<VertexBufferState>, strides: Seq<(u64, InputStepMode)>) -> Seq<VertexBufferState> {
    Seq::new(
        inputs.len(),
        |i: int|
            if i < strides.len() {
                VertexBufferState { total_size: inputs[i].total_size, stride: strides[i].0, rate: strides[i].1 }
            } else {
                VertexBufferState { total_size: inputs[i].total_size, stride: 0, rate: InputStepMode::Vertex }
            },
    )
}

impl PassRun {
    /// Every part of the state but the vertex buffers is as in `old`.
    pub open spec fn same_but_vertex(&self, old: PassRun) -> bool {
        &&& self.state.binder == old.state.binder
        &&& self.state.blend_color == old.state.blend_color
        &&& self.state.stencil_reference == old.state.stencil_reference
        &&& self.state.pipeline == old.state.pipeline
        &&& self.state.index == old.state.index
        &&& self.state.debug_scope_depth == old.state.debug_scope_depth
    }

    /// Every part of the state is as in `old`.
    pub open spec fn same_state(&self, old: PassRun) -> bool {
        &&& self.same_but_vertex(old)
        &&& self.state.vertex == old.state.vertex
    }

    pub open spec fn wf(&self) -> bool {
        self.state.wf()
    }

    /// Binds `buffer_id` as vertex buffer `slot`: `size` bytes from `offset`, or the
    /// rest of the buffer for `WHOLE_SIZE`.
    pub fn set_vertex_buffer(&mut self, hub: &Hub, slot: u32, buffer_id: Id, offset: u64, size: u64) -> (r: Result<(), RenderPassError>)
        requires
            old(self).wf(),
        ensures
            follows(r, run_view(*final(self)), step_vertex_buffer(run_view(*old(self)), *hub, slot, buffer_id, offset, size)),
            final(self).wf(),
            r is Ok ==> {
                let b = hub.buffers.lookup(buffer_id)->0;
                let total = if size != WHOLE_SIZE { size } else { (b.size - offset) as u64 };
                &&& hub.buffers.lookup(buffer_id) is Some
                &&& has_bits(b.usage, BUFFER_USAGE_VERTEX)
                &&& slot < MAX_VERTEX_BUFFERS
                &&& (size == WHOLE_SIZE ==> offset <= b.size)
                &&& slots_of(final(self).state.vertex.inputs) == bind_vertex_slot(slots_of(old(self).state.vertex.inputs), slot as int, total)
                &&& final(self).state.vertex.vertex_limit == rate_limit(slots_of(final(self).state.vertex.inputs), InputStepMode::Vertex)
                &&& final(self).state.vertex.instance_limit == rate_limit(slots_of(final(self).state.vertex.inputs), InputStepMode::Instance)
                &&& final(self).same_but_vertex(*old(self))
            },
            r == match hub.buffers.lookup(buffer_id) {
                None => Err(RenderPassError::InvalidBuffer { id: buffer_id }),
                Some(b) => match use_step(old(self).trackers.buffers.uses@, buffer_id, BUFFER_USE_VERTEX, old(self).trackers.buffers.write_mask) {
                    Err(e) => Err(RenderPassError::Conflict(e)),
                    Ok(_) => if !has_bits(b.usage, BUFFER_USAGE_VERTEX) {
                        Err(RenderPassError::MissingBufferUsage { id: buffer_id, usage: b.usage })
                    } else if slot >= MAX_VERTEX_BUFFERS {
                        Err(RenderPassError::VertexSlotOutOfRange { slot })
                    } else if size == WHOLE_SIZE && offset > b.size {
                        Err(RenderPassError::InvalidBufferRange { id: buffer_id })
                    } else {
                        Ok::<(), RenderPassError>(())
                    },
                },
            },
    {
        let buffer = match hub.buffers.get(buffer_id) {
            Some(b) => *b,
            None => {
                return Err(RenderPassError::InvalidBuffer { id: buffer_id });
            },
        };
        if let Err(e) = self.trackers.buffers.use_extend(buffer_id, BUFFER_USE_VERTEX) {
            return Err(RenderPassError::Conflict(e));
        }
        if buffer.usage & BUFFER_USAGE_VERTEX != BUFFER_USAGE_VERTEX {
            return Err(RenderPassError::MissingBufferUsage { id: buffer_id, usage: buffer.usage });
        }
        if slot as usize >= MAX_VERTEX_BUFFERS {
            return Err(RenderPassError::VertexSlotOutOfRange { slot });
        }
        let total_size = if size != WHOLE_SIZE {
            size
        } else {
            if offset > buffer.size {
                return Err(RenderPassError::InvalidBufferRange { id: buffer_id });
            }
            buffer.size - offset
        };
        let ghost old_inputs = slots_of(self.state.vertex.inputs);
        let s = slot as usize;
        let ghost pre = *self;
        if slots_len(&self.state.vertex.inputs) <= s {
            while slots_len(&self.state.vertex.inputs) <= s
                invariant
                    self.ops == pre.ops,
                    self.trackers == pre.trackers,
                    self.context == pre.context,
                    self.is_ds_read_only == pre.is_ds_read_only,
                    s < MAX_VERTEX_BUFFERS,
                    old_inputs.len() <= slots_of(self.state.vertex.inputs).len() <= s + 1,
                    old_inputs.len() <= s,
                    slots_of(self.state.vertex.inputs) == old_inputs + Seq::new(
                        (slots_of(self.state.vertex.inputs).len() - old_inputs.len()) as nat,
                        |i: int| VertexBufferState { total_size: 0, stride: 0, rate: InputStepMode::Vertex },
                    ),
                    self.same_but_vertex(*old(self)),
                decreases s + 1 - slots_of(self.state.vertex.inputs).len(),
            {
                slots_push(&mut self.state.vertex.inputs, VertexBufferState::empty());
                assert(slots_of(self.state.vertex.inputs) =~= old_inputs + Seq::new(
                    (slots_of(self.state.vertex.inputs).len() - old_inputs.len()) as nat,
                    |i: int| VertexBufferState { total_size: 0, stride: 0, rate: InputStepMode::Vertex },
                ));
            }
        }
        let mut v = slots_get(&self.state.vertex.inputs, s);
        v.total_size = total_size;
        slots_set(&mut self.state.vertex.inputs, s, v);
        proof {
            assert(slots_of(self.state.vertex.inputs) =~= bind_vertex_slot(old_inputs, slot as int, total_size));
        }
        let range_size = if size != WHOLE_SIZE { Some(size) } else { None };
        self.ops.push(BackendOp::BindVertexBuffer { slot, buffer_id, offset, size: range_size });
        self.state.vertex.update_limits();
        assert(run_view(*self).entries =~= run_view(*old(self)).entries);
        assert(ops_view(self.ops@) =~= ops_view(old(self).ops@).push(OpView::BindVertexBuffer { slot, buffer_id, offset, size: range_size }));
        Ok(())
    }

    /// Binds `buffer_id` as the index buffer: `size` bytes from `offset`, or the rest
    /// of the buffer for `WHOLE_SIZE`.
    pub fn set_index_buffer(&mut self, hub: &Hub, buffer_id: Id, offset: u64, size: u64) -> (r: Result<(), RenderPassError>)
        requires
            old(self).wf(),
        ensures
            follows(r, run_view(*final(self)), step_index_buffer(run_view(*old(self)), *hub, buffer_id, offset, size)),
            final(self).wf(),
            r is Ok ==> {
                let b = hub.buffers.lookup(buffer_id)->0;
                let end = if size != WHOLE_SIZE { (offset + size) as u64 } else { b.size };
                &&& hub.buffers.lookup(buffer_id) is Some
                &&& has_bits(b.usage, BUFFER_USAGE_INDEX)
                &&& offset <= end
                &&& (size != WHOLE_SIZE ==> offset + size <= u64::MAX)
                &&& final(self).state.index.bound_buffer_view == Some((buffer_id, offset, end))
                &&& final(self).state.index.format == old(self).state.index.format
                &&& final(self).state.index.limit == index_limit(Some((buffer_id, offset, end)), old(self).state.index.format)
                &&& final(self).state.vertex == old(self).state.vertex
                &&& final(self).state.binder == old(self).state.binder
                &&& final(self).state.pipeline == old(self).state.pipeline
                &&& final(self).state.blend_color == old(self).state.blend_color
                &&& final(self).state.stencil_reference == old(self).state.stencil_reference
                &&& final(self).state.debug_scope_depth == old(self).state.debug_scope_depth
            },
            r == match hub.buffers.lookup(buffer_id) {
                None => Err(RenderPassError::InvalidBuffer { id: buffer_id }),
                Some(b) => match use_step(old(self).trackers.buffers.uses@, buffer_id, BUFFER_USE_INDEX, old(self).trackers.buffers.write_mask) {
                    Err(e) => Err(RenderPassError::Conflict(e)),
                    Ok(_) => if !has_bits(b.usage, BUFFER_USAGE_INDEX) {
                        Err(RenderPassError::MissingBufferUsage { id: buffer_id, usage: b.usage })
                    } else if size != WHOLE_SIZE && offset + size > u64::MAX {
                        Err(RenderPassError::InvalidBufferRange { id: buffer_id })
                    } else if offset > (if size != WHOLE_SIZE { (offset + size) as u64 } else { b.size }) {
                        Err(RenderPassError::InvalidBufferRange { id: buffer_id })
                    } else {
                        Ok::<(), RenderPassError>(())
                    },
                },
            },
    {
        let buffer = match hub.buffers.get(buffer_id) {
            Some(b) => *b,
            None => {
                return Err(RenderPassError::InvalidBuffer { id: buffer_id });
            },
        };
        if let Err(e) = self.trackers.buffers.use_extend(buffer_id, BUFFER_USE_INDEX) {
            return Err(RenderPassError::Conflict(e));
        }
        if buffer.usage & BUFFER_USAGE_INDEX != BUFFER_USAGE_INDEX {
            return Err(RenderPassError::MissingBufferUsage { id: buffer_id, usage: buffer.usage });
        }
        let end = if size != WHOLE_SIZE {
            if offset > u64::MAX - size {
                return Err(RenderPassError::InvalidBufferRange { id: buffer_id });
            }
            offset + size
        } else {
            buffer.size
        };
        if offset > end {
            return Err(RenderPassError::InvalidBufferRange { id: buffer_id });
        }
        self.state.index.bound_buffer_view = Some((buffer_id, offset, end));
        self.state.index.update_limit();
        self.ops.push(BackendOp::BindIndexBuffer { buffer_id, offset, size: end - offset, format: self.state.index.format });
        assert(ops_view(self.ops@) =~= ops_view(old(self).ops@).push(OpView::BindIndexBuffer { buffer_id, offset, size: (end - offset) as u64, format: self.state.index.format }));
        assert(run_view(*self).entries =~= run_view(*old(self)).entries);
        Ok(())
    }

    /// Supplies the blend color.
    pub fn set_blend_color(&mut self, color: Color)
        ensures
            run_view(*final(self)) == (RunView { blend: OptionalState::Supplied, ops: run_view(*old(self)).ops.push(OpView::SetBlendConstants(color)), ..run_view(*old(self)) }),
            final(self).state.blend_color == OptionalState::Supplied,
            final(self).state.binder == old(self).state.binder,
            final(self).state.stencil_reference == old(self).state.stencil_reference,
            final(self).state.pipeline == old(self).state.pipeline,
            final(self).state.index == old(self).state.index,
            final(self).state.vertex == old(self).state.vertex,
            final(self).state.debug_scope_depth == old(self).state.debug_scope_depth,
    {
        self.state.blend_color = OptionalState::Supplied;
        self.ops.push(BackendOp::SetBlendConstants(color));
        assert(ops_view(self.ops@) =~= ops_view(old(self).ops@).push(OpView::SetBlendConstants(color)));
        assert(run_view(*self).entries =~= run_view(*old(self)).entries);
    }

    /// Supplies the stencil reference.
    pub fn set_stencil_reference(&mut self, value: u32)
        ensures
            run_view(*final(self)) == (RunView { stencil: OptionalState::Supplied, ops: run_view(*old(self)).ops.push(OpView::SetStencilReference(value)), ..run_view(*old(self)) }),
            final(self).state.stencil_reference == OptionalState::Supplied,
            final(self).state.binder == old(self).state.binder,
            final(self).state.blend_color == old(self).state.blend_color,
            final(self).state.pipeline == old(self).state.pipeline,
            final(self).state.index == old(self).state.index,
            final(self).state.vertex == old(self).state.vertex,
            final(self).state.debug_scope_depth == old(self).state.debug_scope_depth,
    {
        self.state.stencil_reference = OptionalState::Supplied;
        self.ops.push(BackendOp::SetStencilReference(value));
        assert(ops_view(self.ops@) =~= ops_view(old(self).ops@).push(OpView::SetStencilReference(value)));
        assert(run_view(*self).entries =~= run_view(*old(self)).entries);
    }

    /// Checks a non-indexed draw: the state must be ready, and the vertices and
    /// instances it reads must lie within the limits of the bound vertex buffers.
    pub fn draw(&mut self, vertex_count: u32, instance_count: u32, first_vertex: u32, first_instance: u32) -> (r: Result<(), RenderPassError>)
        requires
            old(self).wf(),
        ensures
            follows(r, run_view(*final(self)), step_draw(run_view(*old(self)), vertex_count, instance_count, first_vertex, first_instance)),
            final(self).state == old(self).state,
            final(self).trackers == old(self).trackers,
            r is Ok <==> draw_allowed(old(self).state, vertex_count, instance_count, first_vertex, first_instance),
            readiness(old(self).state) is Err ==> r == Err::<(), RenderPassError>(RenderPassError::Draw(readiness(old(self).state)->Err_0)),
            r is Ok ==> final(self).ops@ == old(self).ops@.push(BackendOp::Draw { first_vertex, vertex_count, first_instance, instance_count }),
    {
        proof {
            lemma_ready(*old(self));
        }
        if let Err(e) = self.state.is_ready() {
            return Err(RenderPassError::Draw(e));
        }
        let vend = first_vertex as u64 + vertex_count as u64;
        if vend > self.state.vertex.vertex_limit {
            return Err(RenderPassError::VertexBeyondLimit { end: vend, limit: self.state.vertex.vertex_limit });
        }
        let iend = first_instance as u64 + instance_count as u64;
        if iend > self.state.vertex.instance_limit {
            return Err(RenderPassError::InstanceBeyondLimit { end: iend, limit: self.state.vertex.instance_limit });
        }
        self.ops.push(BackendOp::Draw { first_vertex, vertex_count, first_instance, instance_count });
        assert(ops_view(self.ops@) =~= ops_view(old(self).ops@).push(OpView::Draw { first_vertex, vertex_count, first_instance, instance_count }));
        Ok(())
    }

    /// Checks an indexed draw: the state must be ready, the indices must lie within
    /// the bound index range and the instances within the instance limit.
    pub fn draw_indexed(&mut self, index_count: u32, instance_count: u32, first_index: u32, base_vertex: i32, first_instance: u32) -> (r: Result<(), RenderPassError>)
        requires
            old(self).wf(),
        ensures
            follows(r, run_view(*final(self)), step_draw_indexed(run_view(*old(self)), index_count, instance_count, first_index, base_vertex, first_instance)),
            final(self).state == old(self).state,
            final(self).trackers == old(self).trackers,
            r is Ok <==> (readiness(old(self).state) is Ok
                && first_index + index_count <= old(self).state.index.limit
                && first_instance + instance_count <= old(self).state.vertex.instance_limit),
            readiness(old(self).state) is Err ==> r == Err::<(), RenderPassError>(RenderPassError::Draw(readiness(old(self).state)->Err_0)),
            r is Ok ==> final(self).ops@ == old(self).ops@.push(BackendOp::DrawIndexed { first_index, index_count, base_vertex, first_instance, instance_count }),
    {
        proof {
            lemma_ready(*old(self));
        }
        if let Err(e) = self.state.is_ready() {
            return Err(RenderPassError::Draw(e));
        }
        let end = first_index as u64 + index_count as u64;
        if end > self.state.index.limit {
            return Err(RenderPassError::IndexBeyondLimit { end, limit: self.state.index.limit });
        }
        let iend = first_instance as u64 + instance_count as u64;
        if iend > self.state.vertex.instance_limit {
            return Err(RenderPassError::InstanceBeyondLimit { end: iend, limit: self.state.vertex.instance_limit });
        }
        self.ops.push(BackendOp::DrawIndexed { first_index, index_count, base_vertex, first_instance, instance_count });
        assert(ops_view(self.ops@) =~= ops_view(old(self).ops@).push(OpView::DrawIndexed { first_index, index_count, base_vertex, first_instance, instance_count }));
        Ok(())
    }

    /// Checks an indirect draw: the state must be ready and the buffer usable for
    /// indirect draws; the counts live in the buffer and are not checked here.
    pub fn draw_indirect(&mut self, hub: &Hub, buffer_id: Id, offset: u64, indexed: bool) -> (r: Result<(), RenderPassError>)
        requires
            old(self).wf(),
        ensures
            follows(r, run_view(*final(self)), step_draw_indirect(run_view(*old(self)), *hub, buffer_id, offset, indexed)),
            final(self).state == old(self).state,
            r == match readiness(old(self).state) {
                Err(e) => Err(RenderPassError::Draw(e)),
                Ok(_) => match hub.buffers.lookup(buffer_id) {
                    None => Err(RenderPassError::InvalidBuffer { id: buffer_id }),
                    Some(b) => match use_step(old(self).trackers.buffers.uses@, buffer_id, BUFFER_USE_INDIRECT, old(self).trackers.buffers.write_mask) {
                        Err(e) => Err(RenderPassError::Conflict(e)),
                        Ok(_) => if !has_bits(b.usage, BUFFER_USAGE_INDIRECT) {
                            Err(RenderPassError::MissingBufferUsage { id: buffer_id, usage: b.usage })
                        } else {
                            Ok::<(), RenderPassError>(())
                        },
                    },
                },
            },
            r is Ok ==> final(self).ops@ == old(self).ops@.push(if indexed {
                BackendOp::DrawIndexedIndirect { buffer_id, offset }
            } else {
                BackendOp::DrawIndirect { buffer_id, offset }
            }),
    {
        proof {
            lemma_ready(*old(self));
        }
        if let Err(e) = self.state.is_ready() {
            return Err(RenderPassError::Draw(e));
        }
        let buffer = match hub.buffers.get(buffer_id) {
            Some(b) => *b,
            None => {
                return Err(RenderPassError::InvalidBuffer { id: buffer_id });
            },
        };
        if let Err(e) = self.trackers.buffers.use_extend(buffer_id, BUFFER_USE_INDIRECT) {
            return Err(RenderPassError::Conflict(e));
        }
        if buffer.usage & BUFFER_USAGE_INDIRECT != BUFFER_USAGE_INDIRECT {
            return Err(RenderPassError::MissingBufferUsage { id: buffer_id, usage: buffer.usage });
        }
        if indexed {
            self.ops.push(BackendOp::DrawIndexedIndirect { buffer_id, offset });
        } else {
            self.ops.push(BackendOp::DrawIndirect { buffer_id, offset });
        }
        assert(ops_view(self.ops@) =~= ops_view(old(self).ops@).push(if indexed { OpView::DrawIndexedIndirect { buffer_id, offset } } else { OpView::DrawIndirect { buffer_id, offset } }));
        assert(run_view(*self).entries =~= run_view(*old(self)).entries);
        Ok(())
    }

    /// Opens a debug group.
    pub fn push_debug_group(&mut self, label: Vec<u8>, color: u32) -> (r: Result<(), RenderPassError>)
        ensures
            r is Ok ==> run_view(*final(self)) == (RunView { depth: (old(self).state.debug_scope_depth + 1) as u32, ops: run_view(*old(self)).ops.push(OpView::BeginDebugMarker { label: label@, color }), ..run_view(*old(self)) }),
            r is Ok <==> old(self).state.debug_scope_depth < u32::MAX,
            r is Err ==> r == Err::<(), RenderPassError>(RenderPassError::DebugGroupOverflow),
            r is Ok ==> final(self).state.debug_scope_depth == old(self).state.debug_scope_depth + 1,
            final(self).state.vertex == old(self).state.vertex,
            final(self).state.index == old(self).state.index,
            final(self).state.binder == old(self).state.binder,
            final(self).state.pipeline == old(self).state.pipeline,
            final(self).state.blend_color == old(self).state.blend_color,
            final(self).state.stencil_reference == old(self).state.stencil_reference,
    {
        if self.state.debug_scope_depth == u32::MAX {
            return Err(RenderPassError::DebugGroupOverflow);
        }
        self.state.debug_scope_depth = self.state.debug_scope_depth + 1;
        let ghost label_view = label@;
        self.ops.push(BackendOp::BeginDebugMarker { label, color });
        assert(ops_view(self.ops@) =~= ops_view(old(self).ops@).push(OpView::BeginDebugMarker { label: label_view, color }));
        assert(run_view(*self).entries =~= run_view(*old(self)).entries);
        Ok(())
    }

    /// Closes the innermost debug group; there must be one.
    pub fn pop_debug_group(&mut self) -> (r: Result<(), RenderPassError>)
        ensures
            r is Ok ==> run_view(*final(self)) == (RunView { depth: (old(self).state.debug_scope_depth - 1) as u32, ops: run_view(*old(self)).ops.push(OpView::EndDebugMarker), ..run_view(*old(self)) }),
            old(self).state.debug_scope_depth == 0 ==> r == Err::<(), RenderPassError>(RenderPassError::DebugGroupUnderflow),
            old(self).state.debug_scope_depth > 0 ==> r is Ok && final(self).state.debug_scope_depth == old(self).state.debug_scope_depth - 1,
            final(self).state.vertex == old(self).state.vertex,
            final(self).state.index == old(self).state.index,
            final(self).state.binder == old(self).state.binder,
            final(self).state.pipeline == old(self).state.pipeline,
            final(self).state.blend_color == old(self).state.blend_color,
            final(self).state.stencil_reference == old(self).state.stencil_reference,
    {
        if self.state.debug_scope_depth == 0 {
            return Err(RenderPassError::DebugGroupUnderflow);
        }
        self.state.debug_scope_depth = self.state.debug_scope_depth - 1;
        self.ops.push(BackendOp::EndDebugMarker);
        assert(ops_view(self.ops@) =~= ops_view(old(self).ops@).push(OpView::EndDebugMarker));
        assert(run_view(*self).entries =~= run_view(*old(self)).entries);
        Ok(())
    }
}

/// The buffer of a bound index range (meaningful when one is bound).
pub open spec fn bound_buffer_id(view: Option<(Id, u64, u64)>) -> Id {
    match view {
        Some((id, _, _)) => id,
        None => Id { index: 0, epoch: 0 },
    }
}

/// A copy of a list of dynamic offsets.
fn copy_offsets(v: &Vec<u32>) -> (r: Vec<u32>)
    ensures
        r@ == v@,
{
    let mut r: Vec<u32> = Vec::new();
    let mut i: usize = 0;
    while i < v.len()
        invariant
            i <= v@.len(),
            r@ == v@.take(i as int),
        decreases v@.len() - i,
    {
        r.push(v[i]);
        i = i + 1;
        assert(r@ =~= v@.take(i as int));
    }
    assert(v@.take(i as int) =~= v@);
    r
}

/// Whether a non-indexed draw may be issued in state `s`.
pub open spec fn draw_allowed(s: State, vertex_count: u32, instance_count: u32, first_vertex: u32, first_instance: u32) -> bool {
    &&& readiness(s) is Ok
    &&& first_vertex + vertex_count <= s.vertex.vertex_limit
    &&& first_instance + instance_count <= s.vertex.instance_limit
}

/// In a ready state whose vertex limit was computed from its slots (as binding a
/// vertex buffer or a pipeline leaves it), a draw of `vertex_count` vertices from the
/// first one, with instances in range, succeeds exactly when `vertex_count` is at
/// most `total_size / stride` of every slot that steps per vertex with a non-zero
/// stride.
pub proof fn lemma_draw_within_vertex_slots(s: State, vertex_count: u32, instance_count: u32, first_instance: u32)
    requires
        readiness(s) is Ok,
        s.vertex.vertex_limit == rate_limit(slots_of(s.vertex.inputs), InputStepMode::Vertex),
        first_instance + instance_count <= s.vertex.instance_limit,
    ensures
        draw_allowed(s, vertex_count, instance_count, 0, first_instance) <==> forall|i: int|
            0 <= i < slots_of(s.vertex.inputs).len() && (#[trigger] slots_of(s.vertex.inputs)[i]).stride != 0
                && slots_of(s.vertex.inputs)[i].rate == InputStepMode::Vertex
                ==> vertex_count <= slots_of(s.vertex.inputs)[i].total_size / slots_of(s.vertex.inputs)[i].stride,
{
    let inputs = slots_of(s.vertex.inputs);
    crate::state::lemma_rate_limit_is_least(inputs, InputStepMode::Vertex);
}

/// The state that `require` leaves.
pub open spec fn required(s: OptionalState, require: bool) -> OptionalState {
    if require && s == OptionalState::Unused {
        OptionalState::Required
    } else {
        s
    }
}

/// Whether every dynamic offset is a multiple of `BIND_BUFFER_ALIGNMENT`.
pub open spec fn offsets_aligned(offsets: Seq<u32>) -> bool {
    forall|i: int| 0 <= i < offsets.len() ==> #[trigger] offsets[i] % BIND_BUFFER_ALIGNMENT == 0
}

impl PassRun {
    /// Binds pipeline `pipeline_id`: it must be built for this pass's attachments (and
    /// leave depth and stencil untouched in a read-only pass). Its needs become
    /// required; bind groups are checked against its layout and bound again where
    /// they still match; the index format and vertex strides become its own.
    #[verifier::loop_isolation(false)]
    #[verifier::rlimit(100)]
    pub fn set_pipeline(&mut self, hub: &Hub, pipeline_id: Id) -> (r: Result<(), RenderPassError>)
        requires
            old(self).wf(),
        ensures
            follows(r, run_view(*final(self)), step_pipeline(run_view(*old(self)), *hub, pipeline_id)),
            final(self).wf(),
            r == match hub.render_pipelines.lookup(pipeline_id) {
                None => Err(RenderPassError::InvalidPipeline { id: pipeline_id }),
                Some(p) => if context_view(old(self).context) != context_view(p.pass_context) {
                    Err(RenderPassError::IncompatiblePipeline { id: pipeline_id })
                } else if old(self).is_ds_read_only && !p.depth_stencil_read_only {
                    Err(RenderPassError::PipelineNotReadOnly { id: pipeline_id })
                } else if old(self).state.binder.pipeline_layout_id != Some(p.layout_id) && hub.pipeline_layouts.lookup(p.layout_id) is None {
                    Err(RenderPassError::InvalidPipelineLayout { id: p.layout_id })
                } else if old(self).state.index.format != p.index_format && old(self).state.index.bound_buffer_view is Some
                    && use_step(old(self).trackers.buffers.uses@, bound_buffer_id(old(self).state.index.bound_buffer_view), BUFFER_USE_INDEX, old(self).trackers.buffers.write_mask) is Err {
                    Err(RenderPassError::Conflict(use_step(old(self).trackers.buffers.uses@, bound_buffer_id(old(self).state.index.bound_buffer_view), BUFFER_USE_INDEX, old(self).trackers.buffers.write_mask)->Err_0))
                } else {
                    Ok::<(), RenderPassError>(())
                },
            },
            r is Ok ==> {
                let p = hub.render_pipelines.lookup(pipeline_id)->0;
                &&& hub.render_pipelines.lookup(pipeline_id) is Some
                &&& context_view(old(self).context) == context_view(p.pass_context)
                &&& (old(self).is_ds_read_only ==> p.depth_stencil_read_only)
                &&& final(self).state.pipeline == OptionalState::Supplied
                &&& final(self).state.blend_color == required(old(self).state.blend_color, p.needs_blend_color)
                &&& final(self).state.stencil_reference == required(old(self).state.stencil_reference, p.needs_stencil_reference)
                &&& final(self).state.index.format == p.index_format
                &&& final(self).state.index.bound_buffer_view == old(self).state.index.bound_buffer_view
                &&& (old(self).state.index.format != p.index_format ==> final(self).state.index.limit == index_limit(old(self).state.index.bound_buffer_view, p.index_format))
                &&& (old(self).state.index.format == p.index_format ==> final(self).state.index.limit == old(self).state.index.limit)
                &&& slots_of(final(self).state.vertex.inputs) == apply_strides(slots_of(old(self).state.vertex.inputs), p.vertex_strides@)
                &&& final(self).state.vertex.vertex_limit == rate_limit(slots_of(final(self).state.vertex.inputs), InputStepMode::Vertex)
                &&& final(self).state.vertex.instance_limit == rate_limit(slots_of(final(self).state.vertex.inputs), InputStepMode::Instance)
                &&& (old(self).state.binder.pipeline_layout_id == Some(p.layout_id) ==> final(self).state.binder == old(self).state.binder)
                &&& (old(self).state.binder.pipeline_layout_id != Some(p.layout_id) ==> {
                    &&& hub.pipeline_layouts.lookup(p.layout_id) is Some
                    &&& final(self).state.binder.pipeline_layout_id == Some(p.layout_id)
                    &&& final(self).state.binder.entries@ == expect_layouts(old(self).state.binder.entries@, hub.pipeline_layouts.lookup(p.layout_id)->0.bind_group_layout_ids@)
                })
                &&& final(self).state.debug_scope_depth == old(self).state.debug_scope_depth
            },
    {
        self.state.pipeline = OptionalState::Supplied;
        let pipeline = match hub.render_pipelines.get(pipeline_id) {
            Some(p) => p,
            None => {
                return Err(RenderPassError::InvalidPipeline { id: pipeline_id });
            },
        };
        if !self.context.compatible(&pipeline.pass_context) {
            return Err(RenderPassError::IncompatiblePipeline { id: pipeline_id });
        }
        if self.is_ds_read_only && !pipeline.depth_stencil_read_only {
            return Err(RenderPassError::PipelineNotReadOnly { id: pipeline_id });
        }
        self.state.blend_color.require(pipeline.needs_blend_color);
        self.state.stencil_reference.require(pipeline.needs_stencil_reference);
        self.ops.push(BackendOp::BindPipeline { pipeline_id });
        let ghost ops1 = ops_view(old(self).ops@).push(OpView::BindPipeline { pipeline_id });
        assert(ops_view(self.ops@) =~= ops1);
        let ghost ev = entries_view(old(self).state.binder.entries@);
        let ghost group_ops: Seq<OpView> = Seq::empty();
        if self.state.binder.pipeline_layout_id != Some(pipeline.layout_id) {
            let layout = match hub.pipeline_layouts.get(pipeline.layout_id) {
                Some(l) => l,
                None => {
                    return Err(RenderPassError::InvalidPipelineLayout { id: pipeline.layout_id });
                },
            };
            let slots = self.state.binder.change_pipeline_layout(pipeline.layout_id, &layout.bind_group_layout_ids);
            let ghost bgl = layout.bind_group_layout_ids@;
            let ghost ev2 = expect_view(ev, bgl);
            proof {
                lemma_rebind_view(old(self).state.binder.entries@, bgl, 0, true);
                assert(entries_view(self.state.binder.entries@) =~= ev2);
            }
            let mut k: usize = 0;
            while k < slots.len()
                invariant
                    k <= slots@.len(),
                    slots@ == rebind_view(ev, bgl, 0, true),
                    forall|m: int| 0 <= m < slots@.len() ==> #[trigger] slots@[m] < old(self).state.binder.entries@.len()
                        && old(self).state.binder.entries@[slots@[m] as int].provided is Some,
                    ev2 == expect_view(ev, bgl),
                    ev == entries_view(old(self).state.binder.entries@),
                    ops_view(self.ops@) == ops1 + rebind_ops(ev2, slots@.take(k as int), pipeline.layout_id),
                    self.state.binder.entries@ == expect_layouts(old(self).state.binder.entries@, layout.bind_group_layout_ids@),
                    self.state.binder.pipeline_layout_id == Some(pipeline.layout_id),
                    self.state.blend_color == required(old(self).state.blend_color, pipeline.needs_blend_color),
                    self.state.stencil_reference == required(old(self).state.stencil_reference, pipeline.needs_stencil_reference),
                    self.state.pipeline == OptionalState::Supplied,
                    self.state.index == old(self).state.index,
                    self.state.vertex == old(self).state.vertex,
                    self.state.debug_scope_depth == old(self).state.debug_scope_depth,
                    self.state.binder.entries@.len() == old(self).state.binder.entries@.len(),
                    self.trackers == old(self).trackers,
                    self.is_ds_read_only == old(self).is_ds_read_only,
                    self.context == old(self).context,
                decreases slots@.len() - k,
            {
                let slot = slots[k];
                let ghost before = ops_view(self.ops@);
                assert(slots@[k as int] < old(self).state.binder.entries@.len());
                assert(self.state.binder.entries@[slot as int].provided == old(self).state.binder.entries@[slot as int].provided);
                assert(ev2[slot as int].provided == ev[slot as int].provided);
                assert(ev[slot as int] == entry_view(old(self).state.binder.entries@[slot as int]));
                if slot < self.state.binder.entries.len() {
                    match &self.state.binder.entries[slot].provided {
                        Some(pair) => {
                            let offsets = copy_offsets(&pair.dynamic_offsets);
                            let groups = vec![pair.group_id];
                            assert(groups@ =~= seq![pair.group_id]);
                            let op = BackendOp::BindDescriptorSets {
                                pipeline_layout_id: pipeline.layout_id,
                                first: slot as u32,
                                groups,
                                offsets,
                            };
                            assert(op_view(op) == rebind_ops(ev2, slots@, pipeline.layout_id)[k as int]);
                            let ghost ov = op_view(op);
                            self.ops.push(op);
                            assert(ops_view(self.ops@) =~= before.push(ov));
                        },
                        None => {},
                    }
                }
                k = k + 1;
                assert(rebind_ops(ev2, slots@.take(k as int), pipeline.layout_id) =~= rebind_ops(ev2, slots@.take(k - 1), pipeline.layout_id).push(rebind_ops(ev2, slots@, pipeline.layout_id)[k - 1]));
                assert(ops_view(self.ops@) =~= ops1 + rebind_ops(ev2, slots@.take(k as int), pipeline.layout_id));
            }
            assert(slots@.take(k as int) =~= slots@);
            proof {
                group_ops = rebind_ops(ev2, slots@, pipeline.layout_id);
            }
        }
        let ghost ops2 = ops_view(self.ops@);
        assert(ops2 == ops1 + group_ops);
        let ghost bv = self.state.index.bound_buffer_view;
        let ghost idx_ops: Seq<OpView> = if self.state.index.format != pipeline.index_format && bv is Some {
            seq![OpView::BindIndexBuffer {
                buffer_id: bound_id(bv),
                offset: bound_start(bv),
                size: (bound_end(bv) - bound_start(bv)) as u64,
                format: pipeline.index_format,
            }]
        } else {
            Seq::empty()
        };
        if self.state.index.format != pipeline.index_format {
            self.state.index.format = pipeline.index_format;
            self.state.index.update_limit();
            match self.state.index.bound_buffer_view {
                Some((buffer_id, start, end)) => {
                    if let Err(e) = self.trackers.buffers.use_extend(buffer_id, BUFFER_USE_INDEX) {
                        return Err(RenderPassError::Conflict(e));
                    }
                    self.ops.push(BackendOp::BindIndexBuffer { buffer_id, offset: start, size: end - start, format: pipeline.index_format });
                    assert(ops_view(self.ops@) =~= ops2.push(OpView::BindIndexBuffer { buffer_id, offset: start, size: (end - start) as u64, format: pipeline.index_format }));
                },
                None => {},
            }
        }
        assert(ops_view(self.ops@) =~= ops1 + group_ops + idx_ops);
        let n = slots_len(&self.state.vertex.inputs);
        let strides = &pipeline.vertex_strides;
        let ghost old_inputs = slots_of(self.state.vertex.inputs);
        let ghost snap = *self;
        let mut i: usize = 0;
        while i < n
            invariant
                self.same_but_vertex(snap),
                self.ops == snap.ops,
                self.trackers == snap.trackers,
                self.context == snap.context,
                self.is_ds_read_only == snap.is_ds_read_only,
                i <= n,
                n == old_inputs.len(),
                slots_of(self.state.vertex.inputs).len() == n,
                old_inputs == slots_of(old(self).state.vertex.inputs),
                forall|j: int| 0 <= j < i ==> #[trigger] slots_of(self.state.vertex.inputs)[j] == apply_strides(old_inputs, strides@)[j],
                forall|j: int| i <= j < n ==> #[trigger] slots_of(self.state.vertex.inputs)[j] == old_inputs[j],
                self.state.index.wf(),
            decreases n - i,
        {
            let v = slots_get(&self.state.vertex.inputs, i);
            let nv = if i < strides.len() {
                let (stride, rate) = strides[i];
                VertexBufferState { total_size: v.total_size, stride, rate }
            } else {
                VertexBufferState { total_size: v.total_size, stride: 0, rate: InputStepMode::Vertex }
            };
            slots_set(&mut self.state.vertex.inputs, i, nv);
            i = i + 1;
        }
        assert(slots_of(self.state.vertex.inputs) =~= apply_strides(old_inputs, strides@));
        self.state.vertex.update_limits();
        assert(ops_view(self.ops@) =~= ops_view(snap.ops@));
        Ok(())
    }

    /// Sets bind group `bind_group_id` at slot `index` with its dynamic offsets, and
    /// binds it (with the matching groups after it) where the pipeline's layout
    /// already expects it.
    #[verifier::loop_isolation(false)]
    pub fn set_bind_group(&mut self, hub: &Hub, index: u8, bind_group_id: Id, offsets: Vec<u32>) -> (r: Result<(), RenderPassError>)
        requires
            old(self).wf(),
        ensures
            follows(r, run_view(*final(self)), step_bind_group(run_view(*old(self)), *hub, index, bind_group_id, offsets@)),
            final(self).wf(),
            match hub.bind_groups.lookup(bind_group_id) {
                None => r == Err::<(), RenderPassError>(RenderPassError::InvalidBindGroup { id: bind_group_id }),
                Some(bg) => if bg.dynamic_count != offsets@.len() {
                    r == Err::<(), RenderPassError>(RenderPassError::DynamicOffsetCountMismatch { expected: bg.dynamic_count as u32, actual: offsets@.len() as u32 })
                } else if !offsets_aligned(offsets@) {
                    exists|i: int| 0 <= i < offsets@.len() && #[trigger] offsets@[i] % BIND_BUFFER_ALIGNMENT != 0
                        && r == Err::<(), RenderPassError>(RenderPassError::MisalignedDynamicOffset { offset: offsets@[i] })
                } else if index as int >= old(self).state.binder.entries@.len() {
                    r == Err::<(), RenderPassError>(RenderPassError::BindGroupIndexOutOfRange { index: index as u32 })
                } else {
                    match merge_both(old(self).trackers.buffers, old(self).trackers.textures, bg.used) {
                        Err(e) => r == Err::<(), RenderPassError>(RenderPassError::Conflict(e)),
                        Ok((mb, mt)) => r is Ok && final(self).trackers.buffers.uses@ == mb && final(self).trackers.textures.uses@ == mt,
                    }
                },
            },
            r is Ok ==> {
                let bg = hub.bind_groups.lookup(bind_group_id)->0;
                &&& hub.bind_groups.lookup(bind_group_id) is Some
                &&& bg.dynamic_count == offsets@.len()
                &&& offsets_aligned(offsets@)
                &&& (index as int) < old(self).state.binder.entries@.len()
                &&& final(self).state.binder.pipeline_layout_id == old(self).state.binder.pipeline_layout_id
                &&& final(self).state.binder.entries@.len() == old(self).state.binder.entries@.len()
                &&& forall|i: int| 0 <= i < old(self).state.binder.entries@.len() && i != index ==> #[trigger] final(self).state.binder.entries@[i] == old(self).state.binder.entries@[i]
                &&& final(self).state.binder.entries@[index as int].expected_layout_id == old(self).state.binder.entries@[index as int].expected_layout_id
                &&& final(self).state.binder.entries@[index as int].provided is Some
                &&& final(self).state.binder.entries@[index as int].provided->0.group_id == bind_group_id
                &&& final(self).state.binder.entries@[index as int].provided->0.layout_id == bg.layout_id
                &&& final(self).state.binder.entries@[index as int].provided->0.dynamic_offsets@ == offsets@
                &&& final(self).state.pipeline == old(self).state.pipeline
                &&& final(self).state.blend_color == old(self).state.blend_color
                &&& final(self).state.stencil_reference == old(self).state.stencil_reference
                &&& final(self).state.index == old(self).state.index
                &&& final(self).state.vertex == old(self).state.vertex
                &&& final(self).state.debug_scope_depth == old(self).state.debug_scope_depth
            },
    {
        let bind_group = match hub.bind_groups.get(bind_group_id) {
            Some(b) => b,
            None => {
                return Err(RenderPassError::InvalidBindGroup { id: bind_group_id });
            },
        };
        if bind_group.dynamic_count != offsets.len() {
            return Err(RenderPassError::DynamicOffsetCountMismatch { expected: bind_group.dynamic_count as u32, actual: offsets.len() as u32 });
        }
        let mut i: usize = 0;
        while i < offsets.len()
            invariant
                i <= offsets@.len(),
                forall|j: int| 0 <= j < i ==> #[trigger] offsets@[j] % BIND_BUFFER_ALIGNMENT == 0,
            decreases offsets@.len() - i,
        {
            if offsets[i] % BIND_BUFFER_ALIGNMENT != 0 {
                proof {
                    let os = offsets@;
                    assert(!offsets_aligned(os));
                    let k = choose|k: int| 0 <= k < os.len() && #[trigger] os[k] % BIND_BUFFER_ALIGNMENT != 0
                        && forall|j: int| 0 <= j < k ==> #[trigger] os[j] % BIND_BUFFER_ALIGNMENT == 0;
                    assert(os[i as int] % BIND_BUFFER_ALIGNMENT != 0 && forall|j: int| 0 <= j < i ==> #[trigger] os[j] % BIND_BUFFER_ALIGNMENT == 0);
                    if k < i {
                        assert(os[k] % BIND_BUFFER_ALIGNMENT == 0);
                    } else if k > i {
                        assert(os[i as int] % BIND_BUFFER_ALIGNMENT == 0);
                    }
                    assert(first_misaligned(os) == os[i as int]);
                }
                return Err(RenderPassError::MisalignedDynamicOffset { offset: offsets[i] });
            }
            i = i + 1;
        }
        let slot = index as usize;
        if slot >= self.state.binder.entries.len() {
            return Err(RenderPassError::BindGroupIndexOutOfRange { index: index as u32 });
        }
        if let Err(e) = self.trackers.merge_extend(&bind_group.used) {
            return Err(RenderPassError::Conflict(e));
        }
        let ghost offs = offsets@;
        let pair = BindGroupPair { group_id: bind_group_id, layout_id: bind_group.layout_id, dynamic_offsets: offsets };
        let ghost ops0 = self.ops@;
        let r = self.state.binder.provide_entry(slot, pair);
        let ghost ev = entries_view(self.state.binder.entries@);
        proof {
            lemma_leading_ok(self.state.binder.entries@);
            assert(ev =~= run_view(*old(self)).entries.update(
                index as int,
                EntryView { expected: run_view(*old(self)).entries[index as int].expected, provided: Some((bind_group_id, bind_group.layout_id, offs)) },
            ));
        }
        match r {
            Some((layout, end)) => {
                let mut groups: Vec<Id> = Vec::new();
                let mut all_offsets: Vec<u32> = Vec::new();
                let mut k: usize = slot;
                while k < end
                    invariant
                        slot <= k <= end,
                        end <= self.state.binder.entries@.len(),
                        ev == entries_view(self.state.binder.entries@),
                        groups@ == run_groups(ev, slot as int, k as int),
                        all_offsets@ == run_offsets(ev, slot as int, k as int),
                    decreases end - k,
                {
                    assert(ev[k as int] == entry_view(self.state.binder.entries@[k as int]));
                    match &self.state.binder.entries[k].provided {
                        Some(p) => {
                            groups.push(p.group_id);
                            let ghost before = all_offsets@;
                            let mut m: usize = 0;
                            while m < p.dynamic_offsets.len()
                                invariant
                                    m <= p.dynamic_offsets@.len(),
                                    all_offsets@ == before + p.dynamic_offsets@.take(m as int),
                                decreases p.dynamic_offsets@.len() - m,
                            {
                                all_offsets.push(p.dynamic_offsets[m]);
                                m = m + 1;
                                assert(all_offsets@ =~= before + p.dynamic_offsets@.take(m as int));
                            }
                            assert(p.dynamic_offsets@.take(m as int) =~= p.dynamic_offsets@);
                        },
                        None => {
                            assert(all_offsets@ =~= all_offsets@ + prov_offsets(ev[k as int]));
                            assert(groups@ =~= groups@ + Seq::<Id>::empty());
                        },
                    }
                    k = k + 1;
                }
                let op = BackendOp::BindDescriptorSets { pipeline_layout_id: layout, first: slot as u32, groups, offsets: all_offsets };
                let ghost ov = op_view(op);
                self.ops.push(op);
                assert(ops_view(self.ops@) =~= ops_view(ops0).push(ov));
            },
            None => {},
        }
        Ok(())
    }

    /// Executes bundle `bundle_id`, which must be recorded for this pass's attachments;
    /// its uses join the pass's, and the pipeline, bind groups and index and vertex
    /// buffers are forgotten.
    pub fn execute_bundle(&mut self, hub: &Hub, bundle_id: Id) -> (r: Result<(), RenderPassError>)
        requires
            old(self).wf(),
        ensures
            follows(r, run_view(*final(self)), step_bundle(run_view(*old(self)), *hub, bundle_id)),
            final(self).wf(),
            r == match hub.render_bundles.lookup(bundle_id) {
                None => Err(RenderPassError::InvalidBundle { id: bundle_id }),
                Some(b) => if context_view(old(self).context) != context_view(b.context) {
                    Err(RenderPassError::IncompatibleBundle { id: bundle_id })
                } else {
                    match merge_both(old(self).trackers.buffers, old(self).trackers.textures, b.used) {
                        Err(e) => Err(RenderPassError::Conflict(e)),
                        Ok(_) => Ok::<(), RenderPassError>(()),
                    }
                },
            },
            r is Ok ==> {
                &&& hub.render_bundles.lookup(bundle_id) is Some
                &&& context_view(old(self).context) == context_view(hub.render_bundles.lookup(bundle_id)->0.context)
                &&& final(self).state.pipeline == OptionalState::Required
                &&& final(self).state.binder.pipeline_layout_id is None
                &&& final(self).state.binder.entries@.len() == old(self).state.binder.entries@.len()
                &&& forall|i: int| 0 <= i < final(self).state.binder.entries@.len() ==> (#[trigger] final(self).state.binder.entries@[i]).expected_layout_id is None
                    && final(self).state.binder.entries@[i].provided is None
                &&& final(self).state.index.bound_buffer_view is None
                &&& final(self).state.index.limit == 0
                &&& slots_of(final(self).state.vertex.inputs).len() == 0
                &&& final(self).state.vertex.vertex_limit == 0
                &&& final(self).state.vertex.instance_limit == 0
                &&& final(self).state.blend_color == old(self).state.blend_color
                &&& final(self).state.stencil_reference == old(self).state.stencil_reference
                &&& final(self).state.debug_scope_depth == old(self).state.debug_scope_depth
                &&& (final(self).trackers.buffers.uses@, final(self).trackers.textures.uses@) == merge_both(old(self).trackers.buffers, old(self).trackers.textures, hub.render_bundles.lookup(bundle_id)->0.used)->Ok_0
            },
    {
        let bundle = match hub.render_bundles.get(bundle_id) {
            Some(b) => b,
            None => {
                return Err(RenderPassError::InvalidBundle { id: bundle_id });
            },
        };
        if !self.context.compatible(&bundle.context) {
            return Err(RenderPassError::IncompatibleBundle { id: bundle_id });
        }
        self.ops.push(BackendOp::ExecuteBundle(bundle_id));
        if let Err(e) = self.trackers.merge_extend(&bundle.used) {
            return Err(RenderPassError::Conflict(e));
        }
        self.state.reset_bundle();
        assert(ops_view(self.ops@) =~= ops_view(old(self).ops@).push(OpView::ExecuteBundle(bundle_id)));
        assert(entries_view(self.state.binder.entries@) =~= Seq::new(old(self).state.binder.entries@.len(), |i: int| EntryView { expected: None, provided: None }));
        assert(slots_of(self.state.vertex.inputs) =~= Seq::<VertexBufferState>::empty());
        Ok(())
    }
}

/// A scissor coordinate as the backend takes it: one beyond its range becomes `other`.
pub open spec fn clamp_i16(v: u32, other: i16) -> i16 {
    if v <= 0x7fff {
        v as i16
    } else {
        other
    }
}

fn to_i16(v: u32, other: i16) -> (r: i16)
    ensures
        r == clamp_i16(v, other),
{
    if v <= 0x7fff {
        v as i16
    } else {
        other
    }
}

/// The scissor rectangle the backend is given: a position out of range becomes zero,
/// a size out of range the largest one.
pub fn scissor_rect(rect: Rect<u32>) -> (r: Rect<i16>)
    ensures
        r == (Rect { x: clamp_i16(rect.x, 0), y: clamp_i16(rect.y, 0), w: clamp_i16(rect.w, 0x7fff), h: clamp_i16(rect.h, 0x7fff) }),
{
    Rect { x: to_i16(rect.x, 0), y: to_i16(rect.y, 0), w: to_i16(rect.w, 0x7fff), h: to_i16(rect.h, 0x7fff) }
}

} // verus!
