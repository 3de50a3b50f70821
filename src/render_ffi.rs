//! One entry point per command: each appends its record, and trailer, to a pass.
use vstd::prelude::*;
use crate::codec::{command_bytes, end_bytes, RenderCommand};
use crate::raw_pass::{offsets_bytes, RawPass};
use crate::types::{Color, Id, Rect};

verus! {

/// A pass recorded for a command encoder.
pub type EncoderPass = RawPass<Id>;

/// Records a bind group at `index` with its dynamic offsets.
pub fn wgpu_render_pass_set_bind_group(
    pass: &mut EncoderPass,
    index: u32,
    bind_group_id: Id,
    offsets: &[u32],
)
    requires
        index < 256,
        offsets@.len() < 256,
    ensures
        final(pass).bytes() == old(pass).bytes() + command_bytes(
            RenderCommand::SetBindGroup {
                index: index as u8,
                num_dynamic_offsets: offsets@.len() as u8,
                bind_group_id,
            },
        ) + offsets_bytes(offsets@),
        final(pass).owner() == old(pass).owner(),
{
    pass.encode(
        &RenderCommand::SetBindGroup {
            index: index as u8,
            num_dynamic_offsets: offsets.len() as u8,
            bind_group_id,
        },
    );
    pass.encode_offsets(offsets);
}

pub fn wgpu_render_pass_set_pipeline(pass: &mut EncoderPass, pipeline_id: Id)
    ensures
        final(pass).bytes() == old(pass).bytes() + command_bytes(
            RenderCommand::SetPipeline(pipeline_id),
        ),
        final(pass).owner() == old(pass).owner(),
{
    pass.encode(&RenderCommand::SetPipeline(pipeline_id));
}

pub fn wgpu_render_pass_set_index_buffer(
    pass: &mut EncoderPass,
    buffer_id: Id,
    offset: u64,
    size: u64,
)
    ensures
        final(pass).bytes() == old(pass).bytes() + command_bytes(
            RenderCommand::SetIndexBuffer { buffer_id, offset, size },
        ),
        final(pass).owner() == old(pass).owner(),
{
    pass.encode(&RenderCommand::SetIndexBuffer { buffer_id, offset, size });
}

pub fn wgpu_render_pass_set_vertex_buffer(
    pass: &mut EncoderPass,
    slot: u32,
    buffer_id: Id,
    offset: u64,
    size: u64,
)
    ensures
        final(pass).bytes() == old(pass).bytes() + command_bytes(
            RenderCommand::SetVertexBuffer { slot, buffer_id, offset, size },
        ),
        final(pass).owner() == old(pass).owner(),
{
    pass.encode(&RenderCommand::SetVertexBuffer { slot, buffer_id, offset, size });
}

pub fn wgpu_render_pass_set_blend_color(pass: &mut EncoderPass, color: &Color)
    ensures
        final(pass).bytes() == old(pass).bytes() + command_bytes(
            RenderCommand::SetBlendColor(*color),
        ),
        final(pass).owner() == old(pass).owner(),
{
    pass.encode(&RenderCommand::SetBlendColor(*color));
}

pub fn wgpu_render_pass_set_stencil_reference(pass: &mut EncoderPass, value: u32)
    ensures
        final(pass).bytes() == old(pass).bytes() + command_bytes(
            RenderCommand::SetStencilReference(value),
        ),
        final(pass).owner() == old(pass).owner(),
{
    pass.encode(&RenderCommand::SetStencilReference(value));
}

/// Records a viewport; every argument is an `f32` bit pattern.
pub fn wgpu_render_pass_set_viewport(
    pass: &mut EncoderPass,
    x: u32,
    y: u32,
    w: u32,
    h: u32,
    depth_min: u32,
    depth_max: u32,
)
    ensures
        final(pass).bytes() == old(pass).bytes() + command_bytes(
            RenderCommand::SetViewport { rect: Rect { x, y, w, h }, depth_min, depth_max },
        ),
        final(pass).owner() == old(pass).owner(),
{
    pass.encode(&RenderCommand::SetViewport { rect: Rect { x, y, w, h }, depth_min, depth_max });
}

pub fn wgpu_render_pass_set_scissor_rect(pass: &mut EncoderPass, x: u32, y: u32, w: u32, h: u32)
    ensures
        final(pass).bytes() == old(pass).bytes() + command_bytes(
            RenderCommand::SetScissor(Rect { x, y, w, h }),
        ),
        final(pass).owner() == old(pass).owner(),
{
    pass.encode(&RenderCommand::SetScissor(Rect { x, y, w, h }));
}

pub fn wgpu_render_pass_draw(
    pass: &mut EncoderPass,
    vertex_count: u32,
    instance_count: u32,
    first_vertex: u32,
    first_instance: u32,
)
    ensures
        final(pass).bytes() == old(pass).bytes() + command_bytes(
            RenderCommand::Draw { vertex_count, instance_count, first_vertex, first_instance },
        ),
        final(pass).owner() == old(pass).owner(),
{
    pass.encode(
        &RenderCommand::Draw { vertex_count, instance_count, first_vertex, first_instance },
    );
}

pub fn wgpu_render_pass_draw_indexed(
    pass: &mut EncoderPass,
    index_count: u32,
    instance_count: u32,
    first_index: u32,
    base_vertex: i32,
    first_instance: u32,
)
    ensures
        final(pass).bytes() == old(pass).bytes() + command_bytes(
            RenderCommand::DrawIndexed {
                index_count,
                instance_count,
                first_index,
                base_vertex,
                first_instance,
            },
        ),
        final(pass).owner() == old(pass).owner(),
{
    pass.encode(
        &RenderCommand::DrawIndexed {
            index_count,
            instance_count,
            first_index,
            base_vertex,
            first_instance,
        },
    );
}

pub fn wgpu_render_pass_draw_indirect(pass: &mut EncoderPass, buffer_id: Id, offset: u64)
    ensures
        final(pass).bytes() == old(pass).bytes() + command_bytes(
            RenderCommand::DrawIndirect { buffer_id, offset },
        ),
        final(pass).owner() == old(pass).owner(),
{
    pass.encode(&RenderCommand::DrawIndirect { buffer_id, offset });
}

pub fn wgpu_render_pass_draw_indexed_indirect(pass: &mut EncoderPass, buffer_id: Id, offset: u64)
    ensures
        final(pass).bytes() == old(pass).bytes() + command_bytes(
            RenderCommand::DrawIndexedIndirect { buffer_id, offset },
        ),
        final(pass).owner() == old(pass).owner(),
{
    pass.encode(&RenderCommand::DrawIndexedIndirect { buffer_id, offset });
}

/// Opens a debug group whose label is `label`.
pub fn wgpu_render_pass_push_debug_group(pass: &mut EncoderPass, label: &[u8], color: u32)
    requires
        label@.len() <= u32::MAX,
    ensures
        final(pass).bytes() == old(pass).bytes() + command_bytes(
            RenderCommand::PushDebugGroup { color, len: label@.len() as u32 },
        ) + label@,
        final(pass).owner() == old(pass).owner(),
{
    pass.encode(&RenderCommand::PushDebugGroup { color, len: label.len() as u32 });
    pass.encode_slice(label);
}

pub fn wgpu_render_pass_pop_debug_group(pass: &mut EncoderPass)
    ensures
        final(pass).bytes() == old(pass).bytes() + command_bytes(RenderCommand::PopDebugGroup),
        final(pass).owner() == old(pass).owner(),
{
    pass.encode(&RenderCommand::PopDebugGroup);
}

/// Inserts a debug marker whose label is `label`.
pub fn wgpu_render_pass_insert_debug_marker(pass: &mut EncoderPass, label: &[u8], color: u32)
    requires
        label@.len() <= u32::MAX,
    ensures
        final(pass).bytes() == old(pass).bytes() + command_bytes(
            RenderCommand::InsertDebugMarker { color, len: label@.len() as u32 },
        ) + label@,
        final(pass).owner() == old(pass).owner(),
{
    pass.encode(&RenderCommand::InsertDebugMarker { color, len: label.len() as u32 });
    pass.encode_slice(label);
}

/// The bytes of one `ExecuteBundle` record for each bundle, in order.
pub open spec fn bundles_bytes(ids: Seq<Id>) -> Seq<u8>
    decreases ids.len(),
{
    if ids.len() == 0 {
        Seq::empty()
    } else {
        command_bytes(RenderCommand::ExecuteBundle(ids[0])) + bundles_bytes(ids.drop_first())
    }
}

/// Records the execution of each bundle, in order.
pub fn wgpu_render_pass_execute_bundles(pass: &mut EncoderPass, render_bundle_ids: &[Id])
    ensures
        final(pass).bytes() == old(pass).bytes() + bundles_bytes(render_bundle_ids@),
        final(pass).owner() == old(pass).owner(),
{
    let mut i: usize = 0;
    assert(render_bundle_ids@.skip(0) =~= render_bundle_ids@);
    while i < render_bundle_ids.len()
        invariant
            i <= render_bundle_ids@.len(),
            pass.owner() == old(pass).owner(),
            pass.bytes() + bundles_bytes(render_bundle_ids@.skip(i as int)) == old(pass).bytes()
                + bundles_bytes(render_bundle_ids@),
        decreases render_bundle_ids@.len() - i,
    {
        let ghost before = pass.bytes();
        let id = render_bundle_ids[i];
        assert(render_bundle_ids@.skip(i as int).drop_first() =~= render_bundle_ids@.skip(i + 1));
        let ghost tail = bundles_bytes(render_bundle_ids@.skip(i + 1));
        pass.encode(&RenderCommand::ExecuteBundle(id));
        assert(before + (command_bytes(RenderCommand::ExecuteBundle(id)) + tail) =~= pass.bytes()
            + tail);
        i = i + 1;
    }
    assert(bundles_bytes(render_bundle_ids@.skip(i as int)) =~= Seq::<u8>::empty());
    assert(pass.bytes() + Seq::<u8>::empty() =~= pass.bytes());
}

/// Closes the pass's stream and returns its length in bytes.
pub fn wgpu_render_pass_finish(pass: &mut EncoderPass) -> (length: usize)
    ensures
        final(pass).bytes() == old(pass).bytes() + end_bytes(),
        final(pass).owner() == old(pass).owner(),
        length == final(pass).bytes().len(),
{
    pass.finish();
    pass.as_slice().len()
}

} // verus!
