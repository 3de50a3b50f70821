//! The meaning of a pass as plain values: the state after each command, the uses made
//! and the backend operations recorded, one command at a time.
use vstd::prelude::*;
use crate::executor::{
    apply_strides, bind_vertex_slot, clamp_i16, offsets_aligned, required, BackendOp, Hub, PassRun,
    RenderPassError, BIND_BUFFER_ALIGNMENT,
};
use crate::codec::{parse_commands, parse_record, RenderCommand};
use crate::raw_pass::offsets_from;
use crate::resources::{
    context_view, has_bits, BUFFER_USAGE_INDEX, BUFFER_USAGE_INDIRECT,
    BUFFER_USAGE_VERTEX, BUFFER_USE_INDEX, BUFFER_USE_INDIRECT, BUFFER_USE_VERTEX,
};
use crate::slots::slots_of;
use crate::state::{compatible_count, entry_valid, index_limit, rate_limit, readiness, rebind_slots, BindEntry, DrawError, IndexState, OptionalState, State, VertexBufferState};
use crate::tracker::{merge_uses, use_step};
use crate::types::{Color, Extent3d, Id, IndexFormat, InputStepMode, Rect, TextureFormat, MAX_VERTEX_BUFFERS, WHOLE_SIZE};

verus! {

/// A backend operation as plain values.
pub enum OpView {
    CreateRenderPass { handle: u32 },
    CreateFramebuffer { handle: u32, render_pass: u32, extent: Extent3d },
    BeginRenderPass { render_pass: u32, framebuffer: u32, extent: Extent3d },
    BindPipeline { pipeline_id: Id },
    BindDescriptorSets { pipeline_layout_id: Id, first: u32, groups: Seq<Id>, offsets: Seq<u32> },
    BindIndexBuffer { buffer_id: Id, offset: u64, size: u64, format: IndexFormat },
    BindVertexBuffer { slot: u32, buffer_id: Id, offset: u64, size: Option<u64> },
    SetBlendConstants(Color),
    SetStencilReference(u32),
    SetViewport { rect: Rect<u32>, depth_min: u32, depth_max: u32 },
    SetScissor(Rect<i16>),
    Draw { first_vertex: u32, vertex_count: u32, first_instance: u32, instance_count: u32 },
    DrawIndexed { first_index: u32, index_count: u32, base_vertex: i32, first_instance: u32, instance_count: u32 },
    DrawIndirect { buffer_id: Id, offset: u64 },
    DrawIndexedIndirect { buffer_id: Id, offset: u64 },
    BeginDebugMarker { label: Seq<u8>, color: u32 },
    EndDebugMarker,
    InsertDebugMarker { label: Seq<u8>, color: u32 },
    ExecuteBundle(Id),
    EndRenderPass,
}

pub open spec fn op_view(op: BackendOp) -> OpView {
    match op {
        BackendOp::CreateRenderPass { handle } => OpView::CreateRenderPass { handle },
        BackendOp::CreateFramebuffer { handle, render_pass, extent } => OpView::CreateFramebuffer { handle, render_pass, extent },
        BackendOp::BeginRenderPass { render_pass, framebuffer, extent } => OpView::BeginRenderPass { render_pass, framebuffer, extent },
        BackendOp::BindPipeline { pipeline_id } => OpView::BindPipeline { pipeline_id },
        BackendOp::BindDescriptorSets { pipeline_layout_id, first, groups, offsets } => OpView::BindDescriptorSets { pipeline_layout_id, first, groups: groups@, offsets: offsets@ },
        BackendOp::BindIndexBuffer { buffer_id, offset, size, format } => OpView::BindIndexBuffer { buffer_id, offset, size, format },
        BackendOp::BindVertexBuffer { slot, buffer_id, offset, size } => OpView::BindVertexBuffer { slot, buffer_id, offset, size },
        BackendOp::SetBlendConstants(c) => OpView::SetBlendConstants(c),
        BackendOp::SetStencilReference(v) => OpView::SetStencilReference(v),
        BackendOp::SetViewport { rect, depth_min, depth_max } => OpView::SetViewport { rect, depth_min, depth_max },
        BackendOp::SetScissor(r) => OpView::SetScissor(r),
        BackendOp::Draw { first_vertex, vertex_count, first_instance, instance_count } => OpView::Draw { first_vertex, vertex_count, first_instance, instance_count },
        BackendOp::DrawIndexed { first_index, index_count, base_vertex, first_instance, instance_count } => OpView::DrawIndexed { first_index, index_count, base_vertex, first_instance, instance_count },
        BackendOp::DrawIndirect { buffer_id, offset } => OpView::DrawIndirect { buffer_id, offset },
        BackendOp::DrawIndexedIndirect { buffer_id, offset } => OpView::DrawIndexedIndirect { buffer_id, offset },
        BackendOp::BeginDebugMarker { label, color } => OpView::BeginDebugMarker { label: label@, color },
        BackendOp::EndDebugMarker => OpView::EndDebugMarker,
        BackendOp::InsertDebugMarker { label, color } => OpView::InsertDebugMarker { label: label@, color },
        BackendOp::ExecuteBundle(id) => OpView::ExecuteBundle(id),
        BackendOp::EndRenderPass => OpView::EndRenderPass,
    }
}

pub open spec fn ops_view(ops: Seq<BackendOp>) -> Seq<OpView> {
    ops.map_values(|o: BackendOp| op_view(o))
}

/// A bind group slot as plain values: the expected layout, and the group, its layout
/// and its dynamic offsets where one was set.
pub struct EntryView {
    pub expected: Option<Id>,
    pub provided: Option<(Id, Id, Seq<u32>)>,
}

pub open spec fn entry_view(e: BindEntry) -> EntryView {
    EntryView {
        expected: e.expected_layout_id,
        provided: match e.provided {
            Some(p) => Some((p.group_id, p.layout_id, p.dynamic_offsets@)),
            None => None,
        },
    }
}

pub open spec fn entries_view(entries: Seq<BindEntry>) -> Seq<EntryView> {
    entries.map_values(|e: BindEntry| entry_view(e))
}

pub open spec fn entry_ok(e: EntryView) -> bool {
    match e.expected {
        None => true,
        Some(l) => e.provided is Some && prov_layout(e) == l,
    }
}

/// The number of leading valid slots.
pub open spec fn leading_ok(entries: Seq<EntryView>) -> nat
    decreases entries.len(),
{
    if entries.len() == 0 {
        0
    } else if entry_ok(entries[0]) {
        1 + leading_ok(entries.drop_first())
    } else {
        0
    }
}

/// A pass being run, as plain values.
pub struct RunView {
    pub context: (Seq<TextureFormat>, Seq<TextureFormat>, Option<TextureFormat>, u32),
    pub ds_read_only: bool,
    pub layout: Option<Id>,
    pub entries: Seq<EntryView>,
    pub blend: OptionalState,
    pub stencil: OptionalState,
    pub pipeline: OptionalState,
    pub index: IndexState,
    pub slots: Seq<VertexBufferState>,
    pub vertex_limit: u64,
    pub instance_limit: u64,
    pub depth: u32,
    pub buffers: Map<u64, u32>,
    pub buffer_mask: u32,
    pub textures: Map<u64, u32>,
    pub texture_mask: u32,
    pub ops: Seq<OpView>,
}

pub open spec fn run_view(r: PassRun) -> RunView {
    RunView {
        context: context_view(r.context),
        ds_read_only: r.is_ds_read_only,
        layout: r.state.binder.pipeline_layout_id,
        entries: entries_view(r.state.binder.entries@),
        blend: r.state.blend_color,
        stencil: r.state.stencil_reference,
        pipeline: r.state.pipeline,
        index: r.state.index,
        slots: slots_of(r.state.vertex.inputs),
        vertex_limit: r.state.vertex.vertex_limit,
        instance_limit: r.state.vertex.instance_limit,
        depth: r.state.debug_scope_depth,
        buffers: r.trackers.buffers.uses@,
        buffer_mask: r.trackers.buffers.write_mask,
        textures: r.trackers.textures.uses@,
        texture_mask: r.trackers.textures.write_mask,
        ops: ops_view(r.ops@),
    }
}

/// Whether a draw may be issued: the first incompatible slot, then a missing pipeline,
/// blend color or stencil reference, in that order.
pub open spec fn ready(v: RunView) -> Result<(), DrawError> {
    if leading_ok(v.entries) < v.entries.len() {
        Err(DrawError::IncompatibleBindGroup { index: leading_ok(v.entries) as u32 })
    } else if v.pipeline == OptionalState::Required {
        Err(DrawError::MissingPipeline)
    } else if v.blend == OptionalState::Required {
        Err(DrawError::MissingBlendColor)
    } else if v.stencil == OptionalState::Required {
        Err(DrawError::MissingStencilReference)
    } else {
        Ok(())
    }
}

/// That a handler returned `r` and left `after`, as `step` says it must.
pub open spec fn follows(r: Result<(), RenderPassError>, after: RunView, step: Result<RunView, RenderPassError>) -> bool {
    match step {
        Ok(v) => r is Ok && after == v,
        Err(e) => r == Err::<(), RenderPassError>(e),
    }
}


pub proof fn lemma_leading_ok(entries: Seq<BindEntry>)
    ensures
        compatible_count(entries) == leading_ok(entries_view(entries)),
    decreases entries.len(),
{
    if entries.len() > 0 {
        assert(entries_view(entries.drop_first()) =~= entries_view(entries).drop_first());
        lemma_leading_ok(entries.drop_first());
        assert(entry_valid(entries[0]) == entry_ok(entry_view(entries[0])));
    }
}

/// Readiness of a state is readiness of its view.
pub proof fn lemma_ready(r: PassRun)
    ensures
        readiness(r.state) == ready(run_view(r)),
{
    lemma_leading_ok(r.state.binder.entries@);
}

pub open spec fn prov_layout(e: EntryView) -> Id {
    match e.provided {
        Some((_, l, _)) => l,
        None => Id { index: 0, epoch: 0 },
    }
}

pub open spec fn prov_group(e: EntryView) -> Id {
    match e.provided {
        Some((g, _, _)) => g,
        None => Id { index: 0, epoch: 0 },
    }
}

pub open spec fn prov_offsets(e: EntryView) -> Seq<u32> {
    match e.provided {
        Some((_, _, o)) => o,
        None => Seq::empty(),
    }
}

/// The slots whose bind group is bound again when a layout with bind group layouts
/// `bgl` replaces the expectations of `entries` (see `rebind_slots`).
pub open spec fn rebind_view(entries: Seq<EntryView>, bgl: Seq<Id>, i: nat, ok: bool) -> Seq<usize>
    decreases entries.len() - i,
{
    if i >= entries.len() || i >= bgl.len() {
        Seq::empty()
    } else {
        let e = entries[i as int];
        if e.expected == Some(bgl[i as int]) {
            rebind_view(entries, bgl, i + 1, ok)
        } else if e.provided is Some && prov_layout(e) == bgl[i as int] {
            (if ok {
                seq![i as usize]
            } else {
                Seq::empty()
            }) + rebind_view(entries, bgl, i + 1, ok)
        } else {
            rebind_view(entries, bgl, i + 1, false)
        }
    }
}

pub proof fn lemma_rebind_view(entries: Seq<BindEntry>, bgl: Seq<Id>, i: nat, ok: bool)
    requires
        entries.len() <= usize::MAX,
    ensures
        rebind_slots(entries, bgl, i, ok) == rebind_view(entries_view(entries), bgl, i, ok),
        forall|k: int| 0 <= k < rebind_view(entries_view(entries), bgl, i, ok).len()
            ==> #[trigger] rebind_view(entries_view(entries), bgl, i, ok)[k] < entries.len()
            && entries[rebind_view(entries_view(entries), bgl, i, ok)[k] as int].provided is Some,
    decreases entries.len() - i,
{
    if i < entries.len() && i < bgl.len() {
        lemma_rebind_view(entries, bgl, i + 1, ok);
        lemma_rebind_view(entries, bgl, i + 1, false);
        let ev = entries_view(entries);
        let e = ev[i as int];
        assert(e == entry_view(entries[i as int]));
        let r = rebind_view(ev, bgl, i, ok);
        let rest = rebind_view(ev, bgl, i + 1, ok);
        if e.expected != Some(bgl[i as int]) && e.provided is Some && prov_layout(e) == bgl[i as int] && ok {
            assert(r == seq![i as usize] + rest);
            assert(entries[i as int].provided is Some);
            assert forall|k: int| 0 <= k < r.len() implies #[trigger] r[k] < entries.len()
                && entries[r[k] as int].provided is Some by {
                if k > 0 {
                    assert(r[k] == rest[k - 1]);
                } else {
                    assert(r[0] == i as usize);
                }
            }
        } else if e.expected != Some(bgl[i as int]) && e.provided is Some && prov_layout(e) == bgl[i as int] {
            assert(r =~= rest);
        }
    }
}

pub open spec fn expect_view(entries: Seq<EntryView>, bgl: Seq<Id>) -> Seq<EntryView> {
    Seq::new(
        entries.len(),
        |i: int| EntryView { expected: if i < bgl.len() { Some(bgl[i]) } else { None }, provided: entries[i].provided },
    )
}

/// The groups of the slots `from..to` that have one, in order.
pub open spec fn run_groups(entries: Seq<EntryView>, from: int, to: int) -> Seq<Id>
    decreases to - from,
{
    if to <= from {
        Seq::empty()
    } else {
        run_groups(entries, from, to - 1) + if entries[to - 1].provided is Some {
            seq![prov_group(entries[to - 1])]
        } else {
            Seq::empty()
        }
    }
}

/// The dynamic offsets of the slots `from..to`, in order.
pub open spec fn run_offsets(entries: Seq<EntryView>, from: int, to: int) -> Seq<u32>
    decreases to - from,
{
    if to <= from {
        Seq::empty()
    } else {
        run_offsets(entries, from, to - 1) + prov_offsets(entries[to - 1])
    }
}

/// The first dynamic offset that is not a multiple of `BIND_BUFFER_ALIGNMENT`.
pub open spec fn first_misaligned(os: Seq<u32>) -> u32 {
    let k = choose|k: int| 0 <= k < os.len() && #[trigger] os[k] % BIND_BUFFER_ALIGNMENT != 0
        && forall|j: int| 0 <= j < k ==> #[trigger] os[j] % BIND_BUFFER_ALIGNMENT == 0;
    os[k]
}

pub open spec fn step_vertex_buffer(v: RunView, hub: Hub, slot: u32, buffer_id: Id, offset: u64, size: u64) -> Result<RunView, RenderPassError> {
    match hub.buffers.lookup(buffer_id) {
        None => Err(RenderPassError::InvalidBuffer { id: buffer_id }),
        Some(b) => match use_step(v.buffers, buffer_id, BUFFER_USE_VERTEX, v.buffer_mask) {
            Err(e) => Err(RenderPassError::Conflict(e)),
            Ok(m) => if !has_bits(b.usage, BUFFER_USAGE_VERTEX) {
                Err(RenderPassError::MissingBufferUsage { id: buffer_id, usage: b.usage })
            } else if slot >= MAX_VERTEX_BUFFERS {
                Err(RenderPassError::VertexSlotOutOfRange { slot })
            } else if size == WHOLE_SIZE && offset > b.size {
                Err(RenderPassError::InvalidBufferRange { id: buffer_id })
            } else {
                let total = if size != WHOLE_SIZE { size } else { (b.size - offset) as u64 };
                let slots = bind_vertex_slot(v.slots, slot as int, total);
                Ok(RunView {
                    slots,
                    vertex_limit: rate_limit(slots, InputStepMode::Vertex),
                    instance_limit: rate_limit(slots, InputStepMode::Instance),
                    buffers: m,
                    ops: v.ops.push(OpView::BindVertexBuffer { slot, buffer_id, offset, size: if size != WHOLE_SIZE { Some(size) } else { None } }),
                    ..v
                })
            },
        },
    }
}

pub open spec fn step_index_buffer(v: RunView, hub: Hub, buffer_id: Id, offset: u64, size: u64) -> Result<RunView, RenderPassError> {
    match hub.buffers.lookup(buffer_id) {
        None => Err(RenderPassError::InvalidBuffer { id: buffer_id }),
        Some(b) => match use_step(v.buffers, buffer_id, BUFFER_USE_INDEX, v.buffer_mask) {
            Err(e) => Err(RenderPassError::Conflict(e)),
            Ok(m) => {
                let end = if size != WHOLE_SIZE { (offset + size) as u64 } else { b.size };
                if !has_bits(b.usage, BUFFER_USAGE_INDEX) {
                    Err(RenderPassError::MissingBufferUsage { id: buffer_id, usage: b.usage })
                } else if size != WHOLE_SIZE && offset + size > u64::MAX {
                    Err(RenderPassError::InvalidBufferRange { id: buffer_id })
                } else if offset > end {
                    Err(RenderPassError::InvalidBufferRange { id: buffer_id })
                } else {
                    let view = Some((buffer_id, offset, end));
                    Ok(RunView {
                        index: IndexState { bound_buffer_view: view, format: v.index.format, limit: index_limit(view, v.index.format) },
                        buffers: m,
                        ops: v.ops.push(OpView::BindIndexBuffer { buffer_id, offset, size: (end - offset) as u64, format: v.index.format }),
                        ..v
                    })
                }
            },
        },
    }
}

pub open spec fn step_draw(v: RunView, vertex_count: u32, instance_count: u32, first_vertex: u32, first_instance: u32) -> Result<RunView, RenderPassError> {
    match ready(v) {
        Err(e) => Err(RenderPassError::Draw(e)),
        Ok(_) => if first_vertex + vertex_count > v.vertex_limit {
            Err(RenderPassError::VertexBeyondLimit { end: (first_vertex + vertex_count) as u64, limit: v.vertex_limit })
        } else if first_instance + instance_count > v.instance_limit {
            Err(RenderPassError::InstanceBeyondLimit { end: (first_instance + instance_count) as u64, limit: v.instance_limit })
        } else {
            Ok(RunView { ops: v.ops.push(OpView::Draw { first_vertex, vertex_count, first_instance, instance_count }), ..v })
        },
    }
}

pub open spec fn step_draw_indexed(v: RunView, index_count: u32, instance_count: u32, first_index: u32, base_vertex: i32, first_instance: u32) -> Result<RunView, RenderPassError> {
    match ready(v) {
        Err(e) => Err(RenderPassError::Draw(e)),
        Ok(_) => if first_index + index_count > v.index.limit {
            Err(RenderPassError::IndexBeyondLimit { end: (first_index + index_count) as u64, limit: v.index.limit })
        } else if first_instance + instance_count > v.instance_limit {
            Err(RenderPassError::InstanceBeyondLimit { end: (first_instance + instance_count) as u64, limit: v.instance_limit })
        } else {
            Ok(RunView { ops: v.ops.push(OpView::DrawIndexed { first_index, index_count, base_vertex, first_instance, instance_count }), ..v })
        },
    }
}

pub open spec fn step_draw_indirect(v: RunView, hub: Hub, buffer_id: Id, offset: u64, indexed: bool) -> Result<RunView, RenderPassError> {
    match ready(v) {
        Err(e) => Err(RenderPassError::Draw(e)),
        Ok(_) => match hub.buffers.lookup(buffer_id) {
            None => Err(RenderPassError::InvalidBuffer { id: buffer_id }),
            Some(b) => match use_step(v.buffers, buffer_id, BUFFER_USE_INDIRECT, v.buffer_mask) {
                Err(e) => Err(RenderPassError::Conflict(e)),
                Ok(m) => if !has_bits(b.usage, BUFFER_USAGE_INDIRECT) {
                    Err(RenderPassError::MissingBufferUsage { id: buffer_id, usage: b.usage })
                } else {
                    Ok(RunView {
                        buffers: m,
                        ops: v.ops.push(if indexed { OpView::DrawIndexedIndirect { buffer_id, offset } } else { OpView::DrawIndirect { buffer_id, offset } }),
                        ..v
                    })
                },
            },
        },
    }
}

pub open spec fn step_bundle(v: RunView, hub: Hub, bundle_id: Id) -> Result<RunView, RenderPassError> {
    match hub.render_bundles.lookup(bundle_id) {
        None => Err(RenderPassError::InvalidBundle { id: bundle_id }),
        Some(b) => if v.context != context_view(b.context) {
            Err(RenderPassError::IncompatibleBundle { id: bundle_id })
        } else {
            match merge_uses(v.buffers, b.used.buffers@, v.buffer_mask) {
                Err(e) => Err(RenderPassError::Conflict(e)),
                Ok(mb) => match merge_uses(v.textures, b.used.textures@, v.texture_mask) {
                    Err(e) => Err(RenderPassError::Conflict(e)),
                    Ok(mt) => Ok(RunView {
                        layout: None,
                        entries: Seq::new(v.entries.len(), |i: int| EntryView { expected: None, provided: None }),
                        pipeline: OptionalState::Required,
                        index: IndexState { bound_buffer_view: None, format: v.index.format, limit: 0 },
                        slots: Seq::empty(),
                        vertex_limit: 0,
                        instance_limit: 0,
                        buffers: mb,
                        textures: mt,
                        ops: v.ops.push(OpView::ExecuteBundle(bundle_id)),
                        ..v
                    }),
                },
            }
        },
    }
}

/// The operations that bind again the bind groups of `slots`.
pub open spec fn rebind_ops(entries: Seq<EntryView>, slots: Seq<usize>, layout: Id) -> Seq<OpView> {
    Seq::new(
        slots.len(),
        |k: int| OpView::BindDescriptorSets {
            pipeline_layout_id: layout,
            first: slots[k] as u32,
            groups: seq![prov_group(entries[slots[k] as int])],
            offsets: prov_offsets(entries[slots[k] as int]),
        },
    )
}

pub open spec fn bound_id(view: Option<(Id, u64, u64)>) -> Id {
    match view {
        Some((id, _, _)) => id,
        None => Id { index: 0, epoch: 0 },
    }
}

pub open spec fn bound_start(view: Option<(Id, u64, u64)>) -> u64 {
    match view {
        Some((_, s, _)) => s,
        None => 0,
    }
}

pub open spec fn bound_end(view: Option<(Id, u64, u64)>) -> u64 {
    match view {
        Some((_, _, e)) => e,
        None => 0,
    }
}

pub open spec fn step_pipeline(v: RunView, hub: Hub, pipeline_id: Id) -> Result<RunView, RenderPassError> {
    match hub.render_pipelines.lookup(pipeline_id) {
        None => Err(RenderPassError::InvalidPipeline { id: pipeline_id }),
        Some(p) => {
            let layout_change = v.layout != Some(p.layout_id);
            let bgl = hub.pipeline_layouts.lookup(p.layout_id)->0.bind_group_layout_ids@;
            let fmt_change = v.index.format != p.index_format;
            let rebind = fmt_change && v.index.bound_buffer_view is Some;
            let used = use_step(v.buffers, bound_id(v.index.bound_buffer_view), BUFFER_USE_INDEX, v.buffer_mask);
            if v.context != context_view(p.pass_context) {
                Err(RenderPassError::IncompatiblePipeline { id: pipeline_id })
            } else if v.ds_read_only && !p.depth_stencil_read_only {
                Err(RenderPassError::PipelineNotReadOnly { id: pipeline_id })
            } else if layout_change && hub.pipeline_layouts.lookup(p.layout_id) is None {
                Err(RenderPassError::InvalidPipelineLayout { id: p.layout_id })
            } else if rebind && used is Err {
                Err(RenderPassError::Conflict(used->Err_0))
            } else {
                let entries = if layout_change { expect_view(v.entries, bgl) } else { v.entries };
                let group_ops = if layout_change {
                    rebind_ops(entries, rebind_view(v.entries, bgl, 0, true), p.layout_id)
                } else {
                    Seq::empty()
                };
                let index_ops = if rebind {
                    seq![OpView::BindIndexBuffer {
                        buffer_id: bound_id(v.index.bound_buffer_view),
                        offset: bound_start(v.index.bound_buffer_view),
                        size: (bound_end(v.index.bound_buffer_view) - bound_start(v.index.bound_buffer_view)) as u64,
                        format: p.index_format,
                    }]
                } else {
                    Seq::empty()
                };
                let slots = apply_strides(v.slots, p.vertex_strides@);
                Ok(RunView {
                    layout: Some(p.layout_id),
                    entries,
                    blend: required(v.blend, p.needs_blend_color),
                    stencil: required(v.stencil, p.needs_stencil_reference),
                    pipeline: OptionalState::Supplied,
                    index: if fmt_change {
                        IndexState { bound_buffer_view: v.index.bound_buffer_view, format: p.index_format, limit: index_limit(v.index.bound_buffer_view, p.index_format) }
                    } else {
                        v.index
                    },
                    slots,
                    vertex_limit: rate_limit(slots, InputStepMode::Vertex),
                    instance_limit: rate_limit(slots, InputStepMode::Instance),
                    buffers: if rebind { used->Ok_0 } else { v.buffers },
                    ops: v.ops.push(OpView::BindPipeline { pipeline_id }) + group_ops + index_ops,
                    ..v
                })
            }
        },
    }
}

pub open spec fn step_bind_group(v: RunView, hub: Hub, index: u8, bind_group_id: Id, offsets: Seq<u32>) -> Result<RunView, RenderPassError> {
    match hub.bind_groups.lookup(bind_group_id) {
        None => Err(RenderPassError::InvalidBindGroup { id: bind_group_id }),
        Some(bg) => if bg.dynamic_count != offsets.len() {
            Err(RenderPassError::DynamicOffsetCountMismatch { expected: bg.dynamic_count as u32, actual: offsets.len() as u32 })
        } else if !offsets_aligned(offsets) {
            Err(RenderPassError::MisalignedDynamicOffset { offset: first_misaligned(offsets) })
        } else if index as int >= v.entries.len() {
            Err(RenderPassError::BindGroupIndexOutOfRange { index: index as u32 })
        } else {
            match merge_uses(v.buffers, bg.used.buffers@, v.buffer_mask) {
                Err(e) => Err(RenderPassError::Conflict(e)),
                Ok(mb) => match merge_uses(v.textures, bg.used.textures@, v.texture_mask) {
                    Err(e) => Err(RenderPassError::Conflict(e)),
                    Ok(mt) => {
                        let entries = v.entries.update(
                            index as int,
                            EntryView { expected: v.entries[index as int].expected, provided: Some((bind_group_id, bg.layout_id, offsets)) },
                        );
                        let end = leading_ok(entries) as int;
                        Ok(RunView {
                            entries,
                            buffers: mb,
                            textures: mt,
                            ops: if (index as int) < end && v.layout is Some {
                                v.ops.push(OpView::BindDescriptorSets {
                                    pipeline_layout_id: v.layout->0,
                                    first: index as u32,
                                    groups: run_groups(entries, index as int, end),
                                    offsets: run_offsets(entries, index as int, end),
                                })
                            } else {
                                v.ops
                            },
                            ..v
                        })
                    },
                },
            }
        },
    }
}

/// What one command does to a pass.
pub open spec fn step(v: RunView, hub: Hub, c: RenderCommand, t: Seq<u8>) -> Result<RunView, RenderPassError> {
    match c {
        RenderCommand::SetBindGroup { index, bind_group_id, .. } => step_bind_group(v, hub, index, bind_group_id, offsets_from(t)),
        RenderCommand::SetPipeline(id) => step_pipeline(v, hub, id),
        RenderCommand::SetIndexBuffer { buffer_id, offset, size } => step_index_buffer(v, hub, buffer_id, offset, size),
        RenderCommand::SetVertexBuffer { slot, buffer_id, offset, size } => step_vertex_buffer(v, hub, slot, buffer_id, offset, size),
        RenderCommand::SetBlendColor(color) => Ok(RunView { blend: OptionalState::Supplied, ops: v.ops.push(OpView::SetBlendConstants(color)), ..v }),
        RenderCommand::SetStencilReference(value) => Ok(RunView { stencil: OptionalState::Supplied, ops: v.ops.push(OpView::SetStencilReference(value)), ..v }),
        RenderCommand::SetViewport { rect, depth_min, depth_max } => Ok(RunView { ops: v.ops.push(OpView::SetViewport { rect, depth_min, depth_max }), ..v }),
        RenderCommand::SetScissor(rect) => Ok(RunView {
            ops: v.ops.push(OpView::SetScissor(Rect { x: clamp_i16(rect.x, 0), y: clamp_i16(rect.y, 0), w: clamp_i16(rect.w, 0x7fff), h: clamp_i16(rect.h, 0x7fff) })),
            ..v
        }),
        RenderCommand::Draw { vertex_count, instance_count, first_vertex, first_instance } => step_draw(v, vertex_count, instance_count, first_vertex, first_instance),
        RenderCommand::DrawIndexed { index_count, instance_count, first_index, base_vertex, first_instance } => step_draw_indexed(v, index_count, instance_count, first_index, base_vertex, first_instance),
        RenderCommand::DrawIndirect { buffer_id, offset } => step_draw_indirect(v, hub, buffer_id, offset, false),
        RenderCommand::DrawIndexedIndirect { buffer_id, offset } => step_draw_indirect(v, hub, buffer_id, offset, true),
        RenderCommand::PushDebugGroup { color, .. } => if v.depth == u32::MAX {
            Err(RenderPassError::DebugGroupOverflow)
        } else {
            Ok(RunView { depth: (v.depth + 1) as u32, ops: v.ops.push(OpView::BeginDebugMarker { label: t, color }), ..v })
        },
        RenderCommand::PopDebugGroup => if v.depth == 0 {
            Err(RenderPassError::DebugGroupUnderflow)
        } else {
            Ok(RunView { depth: (v.depth - 1) as u32, ops: v.ops.push(OpView::EndDebugMarker), ..v })
        },
        RenderCommand::InsertDebugMarker { color, .. } => Ok(RunView { ops: v.ops.push(OpView::InsertDebugMarker { label: t, color }), ..v }),
        RenderCommand::ExecuteBundle(id) => step_bundle(v, hub, id),
        RenderCommand::End => Ok(v),
    }
}

/// Running the records of `items` in order, from `v`: the pass after the last one, or
/// the first error.
pub open spec fn run_records(v: RunView, hub: Hub, items: Seq<(RenderCommand, Seq<u8>)>) -> Result<RunView, RenderPassError>
    decreases items.len(),
{
    if items.len() == 0 {
        Ok(v)
    } else {
        match step(v, hub, items[0].0, items[0].1) {
            Err(e) => Err(e),
            Ok(v2) => run_records(v2, hub, items.drop_first()),
        }
    }
}


/// Running the records of the stream `s` (at `offset` in the whole stream) up to its
/// `End` record, from `v`: the pass after the last one, or the first error, framing
/// errors included, in stream order.
pub open spec fn run_stream(v: RunView, hub: Hub, s: Seq<u8>, offset: usize) -> Result<RunView, RenderPassError>
    decreases s.len(),
{
    match parse_record(s, offset) {
        Err(e) => Err(RenderPassError::Framing(e)),
        Ok((c, t, n)) => {
            if c == RenderCommand::End || n == 0 || n > s.len() {
                Ok(v)
            } else {
                match step(v, hub, c, t) {
                    Err(e) => Err(e),
                    Ok(v2) => run_stream(v2, hub, s.skip(n as int), (offset + n) as usize),
                }
            }
        },
    }
}

/// On a well-framed stream, running it is running its decoded records in order.
pub proof fn lemma_run_stream_records(v: RunView, hub: Hub, s: Seq<u8>, offset: usize)
    requires
        parse_commands(s, offset) is Ok,
    ensures
        run_stream(v, hub, s, offset) == run_records(v, hub, parse_commands(s, offset)->Ok_0),
    decreases s.len(),
{
    match parse_record(s, offset) {
        Err(e) => {},
        Ok((c, t, n)) => {
            if c == RenderCommand::End || n == 0 || n > s.len() {
            } else {
                let rest = parse_commands(s.skip(n as int), (offset + n) as usize)->Ok_0;
                let items = parse_commands(s, offset)->Ok_0;
                assert(items == seq![(c, t)] + rest);
                assert(items.drop_first() =~= rest);
                match step(v, hub, c, t) {
                    Err(e) => {},
                    Ok(v2) => {
                        lemma_run_stream_records(v2, hub, s.skip(n as int), (offset + n) as usize);
                    },
                }
            }
        },
    }
}

} // verus!
