use wgpu_core::executor::{BackendOp, Hub, PassRun, RenderPassError, scissor_rect};
use wgpu_core::resources::{
    BindGroup, Buffer, PipelineLayout, RenderBundle, RenderPassContext, RenderPipeline,
    Storage, Texture, TextureView, UsedResources, BUFFER_USAGE_INDEX,
    BUFFER_USAGE_VERTEX, BUFFER_USAGE_INDIRECT,
};
use wgpu_core::state::{
    DrawError, IndexState, OptionalState, State, VertexBufferState, VertexState, NO_LIMIT,
};
use wgpu_core::tracker::TrackerSet;
use wgpu_core::types::{
    Id, IndexFormat, InputStepMode, Rect, TextureFormat, WHOLE_SIZE,
};

fn format() -> TextureFormat {
    TextureFormat { code: 23 }
}

fn context(samples: u32) -> RenderPassContext {
    RenderPassContext { colors: vec![format()], resolves: vec![], depth_stencil: None, sample_count: samples }
}

fn empty_used() -> UsedResources {
    UsedResources { buffers: vec![], textures: vec![] }
}

fn pipeline(layout_id: Id, blend: bool, stencil: bool, strides: Vec<(u64, InputStepMode)>) -> RenderPipeline {
    RenderPipeline {
        pass_context: context(1),
        layout_id,
        needs_blend_color: blend,
        needs_stencil_reference: stencil,
        depth_stencil_read_only: false,
        index_format: IndexFormat::Uint32,
        vertex_strides: strides,
    }
}

struct Fixture {
    hub: Hub,
    plain: Id,
    blend: Id,
    stencil: Id,
    strided: Id,
    vertex_buffer: Id,
    index_buffer: Id,
    uniform_buffer: Id,
    bundle_same: Id,
    bundle_other: Id,
    group: Id,
    short_index: Id,
    read_only: Id,
}

fn fixture() -> Fixture {
    let mut layouts = Storage::new();
    let layout = layouts.insert(PipelineLayout { bind_group_layout_ids: vec![Id { index: 100, epoch: 0 }] });
    let mut pipelines = Storage::new();
    let plain = pipelines.insert(pipeline(layout, false, false, vec![]));
    let blend = pipelines.insert(pipeline(layout, true, false, vec![]));
    let stencil = pipelines.insert(pipeline(layout, false, true, vec![]));
    let strided = pipelines.insert(pipeline(
        layout,
        false,
        false,
        vec![(4, InputStepMode::Vertex), (8, InputStepMode::Vertex), (16, InputStepMode::Instance), (0, InputStepMode::Vertex)],
    ));
    let mut short = pipeline(layout, false, false, vec![]);
    short.index_format = IndexFormat::Uint16;
    let short_index = pipelines.insert(short);
    let mut ro = pipeline(layout, false, false, vec![]);
    ro.depth_stencil_read_only = true;
    let read_only = pipelines.insert(ro);
    let mut buffers = Storage::new();
    let vertex_buffer = buffers.insert(Buffer { usage: BUFFER_USAGE_VERTEX, size: 400 });
    let index_buffer = buffers.insert(Buffer { usage: BUFFER_USAGE_INDEX | BUFFER_USAGE_INDIRECT, size: 64 });
    let uniform_buffer = buffers.insert(Buffer { usage: 0x40, size: 64 });
    let mut bundles = Storage::new();
    let bundle_same = bundles.insert(RenderBundle { context: context(1), used: empty_used() });
    let bundle_other = bundles.insert(RenderBundle { context: context(4), used: empty_used() });
    let mut groups = Storage::new();
    let group = groups.insert(BindGroup { layout_id: Id { index: 100, epoch: 0 }, dynamic_count: 0, used: empty_used() });
    let hub = Hub {
        buffers,
        textures: Storage::<Texture>::new(),
        views: Storage::<TextureView>::new(),
        bind_groups: groups,
        pipeline_layouts: layouts,
        render_pipelines: pipelines,
        render_bundles: bundles,
    };
    Fixture { hub, plain, blend, stencil, strided, vertex_buffer, index_buffer, uniform_buffer, bundle_same, bundle_other, group, short_index, read_only }
}

fn new_run() -> PassRun {
    PassRun {
        state: State::new(4),
        trackers: TrackerSet::new(0x80, 0xa0),
        ops: vec![],
        context: context(1),
        is_ds_read_only: false,
    }
}

#[test]
fn require_moves_unused_to_required_only() {
    let mut s = OptionalState::Unused;
    s.require(false);
    assert_eq!(s, OptionalState::Unused);
    s.require(true);
    assert_eq!(s, OptionalState::Required);
    let mut t = OptionalState::Supplied;
    t.require(true);
    assert_eq!(t, OptionalState::Supplied);
    let mut u = OptionalState::Required;
    u.require(false);
    assert_eq!(u, OptionalState::Required);
}

#[test]
fn draw_without_pipeline_is_missing_pipeline() {
    let mut run = new_run();
    assert_eq!(run.draw(3, 1, 0, 0), Err(RenderPassError::Draw(DrawError::MissingPipeline)));
    assert_eq!(run.draw_indexed(3, 1, 0, 0, 0), Err(RenderPassError::Draw(DrawError::MissingPipeline)));
}

#[test]
fn blend_color_required_until_set() {
    let f = fixture();
    let mut run = new_run();
    run.set_pipeline(&f.hub, f.blend).unwrap();
    run.set_bind_group(&f.hub, 0, f.group, vec![]).unwrap();
    assert_eq!(run.state.blend_color, OptionalState::Required);
    assert_eq!(run.draw(0, 0, 0, 0), Err(RenderPassError::Draw(DrawError::MissingBlendColor)));
    run.set_blend_color(wgpu_core::types::Color { r: 0, g: 0, b: 0, a: 0 });
    assert_eq!(run.draw(0, 0, 0, 0), Ok(()));
}

#[test]
fn stencil_reference_required_until_set() {
    let f = fixture();
    let mut run = new_run();
    run.set_pipeline(&f.hub, f.stencil).unwrap();
    run.set_bind_group(&f.hub, 0, f.group, vec![]).unwrap();
    assert_eq!(run.draw(0, 0, 0, 0), Err(RenderPassError::Draw(DrawError::MissingStencilReference)));
    run.set_stencil_reference(1);
    assert_eq!(run.draw(0, 0, 0, 0), Ok(()));
}

#[test]
fn required_state_never_returns_to_unused() {
    let f = fixture();
    let mut run = new_run();
    run.set_pipeline(&f.hub, f.blend).unwrap();
    run.set_pipeline(&f.hub, f.plain).unwrap();
    run.set_bind_group(&f.hub, 0, f.group, vec![]).unwrap();
    assert_eq!(run.state.blend_color, OptionalState::Required);
    assert_eq!(run.draw(0, 0, 0, 0), Err(RenderPassError::Draw(DrawError::MissingBlendColor)));
}

#[test]
fn incompatible_bind_group_reports_first_slot() {
    let f = fixture();
    let mut run = new_run();
    run.set_pipeline(&f.hub, f.plain).unwrap();
    assert_eq!(run.draw(0, 0, 0, 0), Err(RenderPassError::Draw(DrawError::IncompatibleBindGroup { index: 0 })));
    run.set_bind_group(&f.hub, 0, f.group, vec![]).unwrap();
    assert_eq!(run.draw(0, 0, 0, 0), Ok(()));
    assert!(run.ops.iter().any(|op| matches!(op, BackendOp::BindDescriptorSets { first: 0, .. })));
}

#[test]
fn bind_group_before_pipeline_is_bound_when_pipeline_comes() {
    let f = fixture();
    let mut run = new_run();
    run.set_bind_group(&f.hub, 0, f.group, vec![]).unwrap();
    assert!(!run.ops.iter().any(|op| matches!(op, BackendOp::BindDescriptorSets { .. })));
    run.set_pipeline(&f.hub, f.plain).unwrap();
    assert!(run.ops.iter().any(|op| matches!(op, BackendOp::BindDescriptorSets { first: 0, .. })));
    assert_eq!(run.draw(0, 0, 0, 0), Ok(()));
}

#[test]
fn bind_group_errors() {
    let f = fixture();
    let mut run = new_run();
    assert_eq!(
        run.set_bind_group(&f.hub, 0, Id { index: 77, epoch: 0 }, vec![]),
        Err(RenderPassError::InvalidBindGroup { id: Id { index: 77, epoch: 0 } })
    );
    assert_eq!(
        run.set_bind_group(&f.hub, 0, f.group, vec![256]),
        Err(RenderPassError::DynamicOffsetCountMismatch { expected: 0, actual: 1 })
    );
    assert_eq!(
        run.set_bind_group(&f.hub, 4, f.group, vec![]),
        Err(RenderPassError::BindGroupIndexOutOfRange { index: 4 })
    );
}

#[test]
fn vertex_slot_three_fills_lower_slots() {
    let f = fixture();
    let mut run = new_run();
    run.set_vertex_buffer(&f.hub, 3, f.vertex_buffer, 0, 100).unwrap();
    let slots = run.state.vertex.slots();
    assert_eq!(slots.len(), 4);
    for slot in 0..3 {
        assert_eq!(
            slots[slot],
            VertexBufferState { total_size: 0, stride: 0, rate: InputStepMode::Vertex }
        );
    }
    assert_eq!(slots[3].total_size, 100);
    assert_eq!(run.state.vertex.vertex_limit, NO_LIMIT);
}

#[test]
fn vertex_limit_is_least_over_strided_slots() {
    let f = fixture();
    let mut run = new_run();
    run.set_vertex_buffer(&f.hub, 0, f.vertex_buffer, 0, 100).unwrap();
    run.set_vertex_buffer(&f.hub, 1, f.vertex_buffer, 0, 400).unwrap();
    run.set_vertex_buffer(&f.hub, 2, f.vertex_buffer, 0, 64).unwrap();
    run.set_vertex_buffer(&f.hub, 3, f.vertex_buffer, 0, 1).unwrap();
    run.set_pipeline(&f.hub, f.strided).unwrap();
    run.set_bind_group(&f.hub, 0, f.group, vec![]).unwrap();
    assert_eq!(run.state.vertex.vertex_limit, 25);
    assert_eq!(run.state.vertex.instance_limit, 4);
    assert_eq!(run.draw(25, 4, 0, 0), Ok(()));
    assert_eq!(run.draw(26, 1, 0, 0), Err(RenderPassError::VertexBeyondLimit { end: 26, limit: 25 }));
    assert_eq!(run.draw(20, 1, 6, 0), Err(RenderPassError::VertexBeyondLimit { end: 26, limit: 25 }));
    assert_eq!(run.draw(1, 5, 0, 0), Err(RenderPassError::InstanceBeyondLimit { end: 5, limit: 4 }));
}

#[test]
fn vertex_buffer_whole_size_takes_rest() {
    let f = fixture();
    let mut run = new_run();
    run.set_vertex_buffer(&f.hub, 0, f.vertex_buffer, 100, WHOLE_SIZE).unwrap();
    assert_eq!(run.state.vertex.slots()[0].total_size, 300);
    assert_eq!(
        run.set_vertex_buffer(&f.hub, 0, f.vertex_buffer, 500, WHOLE_SIZE),
        Err(RenderPassError::InvalidBufferRange { id: f.vertex_buffer })
    );
}

#[test]
fn vertex_buffer_needs_vertex_usage() {
    let f = fixture();
    let mut run = new_run();
    assert_eq!(
        run.set_vertex_buffer(&f.hub, 0, f.uniform_buffer, 0, 4),
        Err(RenderPassError::MissingBufferUsage { id: f.uniform_buffer, usage: 0x40 })
    );
    assert_eq!(
        run.set_vertex_buffer(&f.hub, 16, f.vertex_buffer, 0, 4),
        Err(RenderPassError::VertexSlotOutOfRange { slot: 16 })
    );
}

#[test]
fn index_limit_of_uint32_range() {
    let mut index = IndexState::new();
    index.bound_buffer_view = Some((Id { index: 0, epoch: 0 }, 0, 16));
    index.update_limit();
    assert_eq!(index.limit, 4);
    index.bound_buffer_view = Some((Id { index: 0, epoch: 0 }, 1, 16));
    index.update_limit();
    assert_eq!(index.limit, 3);
    index.format = IndexFormat::Uint16;
    index.update_limit();
    assert_eq!(index.limit, 7);
    index.reset();
    assert_eq!(index.limit, 0);
    assert!(index.bound_buffer_view.is_none());
}

#[test]
fn index_buffer_range_gives_limit() {
    let f = fixture();
    let mut run = new_run();
    run.set_index_buffer(&f.hub, f.index_buffer, 0, 16).unwrap();
    assert_eq!(run.state.index.limit, 4);
    run.set_index_buffer(&f.hub, f.index_buffer, 0, 15).unwrap();
    assert_eq!(run.state.index.limit, 3);
    run.set_index_buffer(&f.hub, f.index_buffer, 8, WHOLE_SIZE).unwrap();
    assert_eq!(run.state.index.limit, 14);
    assert_eq!(
        run.set_index_buffer(&f.hub, f.vertex_buffer, 0, 4),
        Err(RenderPassError::MissingBufferUsage { id: f.vertex_buffer, usage: BUFFER_USAGE_VERTEX })
    );
}

#[test]
fn indexed_draw_checks_index_limit() {
    let f = fixture();
    let mut run = new_run();
    run.set_pipeline(&f.hub, f.plain).unwrap();
    run.set_bind_group(&f.hub, 0, f.group, vec![]).unwrap();
    run.set_index_buffer(&f.hub, f.index_buffer, 0, 16).unwrap();
    assert_eq!(run.draw_indexed(4, 1, 0, -3, 0), Ok(()));
    assert_eq!(run.draw_indexed(3, 1, 2, 0, 0), Err(RenderPassError::IndexBeyondLimit { end: 5, limit: 4 }));
}

#[test]
fn indirect_draw_checks_usage_only() {
    let f = fixture();
    let mut run = new_run();
    run.set_pipeline(&f.hub, f.plain).unwrap();
    run.set_bind_group(&f.hub, 0, f.group, vec![]).unwrap();
    assert_eq!(run.draw_indirect(&f.hub, f.index_buffer, 0, false), Ok(()));
    assert_eq!(run.draw_indirect(&f.hub, f.index_buffer, 0, true), Ok(()));
    assert_eq!(
        run.draw_indirect(&f.hub, f.vertex_buffer, 0, false),
        Err(RenderPassError::MissingBufferUsage { id: f.vertex_buffer, usage: BUFFER_USAGE_VERTEX })
    );
}

#[test]
fn pop_without_push_is_fatal() {
    let mut run = new_run();
    assert_eq!(run.pop_debug_group(), Err(RenderPassError::DebugGroupUnderflow));
}

#[test]
fn push_pop_pop_fails_on_second_pop() {
    let mut run = new_run();
    assert_eq!(run.push_debug_group(b"group".to_vec(), 0), Ok(()));
    assert_eq!(run.pop_debug_group(), Ok(()));
    assert_eq!(run.pop_debug_group(), Err(RenderPassError::DebugGroupUnderflow));
}

#[test]
fn bundle_of_other_context_is_fatal() {
    let f = fixture();
    let mut run = new_run();
    assert_eq!(
        run.execute_bundle(&f.hub, f.bundle_other),
        Err(RenderPassError::IncompatibleBundle { id: f.bundle_other })
    );
}

#[test]
fn compatible_bundle_resets_bound_state() {
    let f = fixture();
    let mut run = new_run();
    run.set_pipeline(&f.hub, f.plain).unwrap();
    run.set_bind_group(&f.hub, 0, f.group, vec![]).unwrap();
    run.set_index_buffer(&f.hub, f.index_buffer, 0, 16).unwrap();
    run.set_vertex_buffer(&f.hub, 0, f.vertex_buffer, 0, 16).unwrap();
    assert_eq!(run.execute_bundle(&f.hub, f.bundle_same), Ok(()));
    assert_eq!(run.state.pipeline, OptionalState::Required);
    assert!(run.state.binder.pipeline_layout_id.is_none());
    assert!(run.state.binder.entries.iter().all(|e| e.provided.is_none() && e.expected_layout_id.is_none()));
    assert!(run.state.index.bound_buffer_view.is_none());
    assert_eq!(run.state.index.limit, 0);
    assert!(run.state.vertex.slots().is_empty());
    assert_eq!(run.draw(0, 0, 0, 0), Err(RenderPassError::Draw(DrawError::MissingPipeline)));
}

#[test]
fn pipeline_of_other_context_is_fatal() {
    let f = fixture();
    let mut run = new_run();
    run.context = context(4);
    assert_eq!(run.set_pipeline(&f.hub, f.plain), Err(RenderPassError::IncompatiblePipeline { id: f.plain }));
}

#[test]
fn vertex_state_limits_and_reset() {
    let f = fixture();
    let mut run = new_run();
    run.set_vertex_buffer(&f.hub, 0, f.vertex_buffer, 0, 90).unwrap();
    run.set_vertex_buffer(&f.hub, 2, f.vertex_buffer, 0, 33).unwrap();
    run.set_pipeline(&f.hub, f.strided).unwrap();
    let slots = run.state.vertex.slots();
    assert_eq!(slots[0], VertexBufferState { total_size: 90, stride: 4, rate: InputStepMode::Vertex });
    assert_eq!(slots[1], VertexBufferState { total_size: 0, stride: 8, rate: InputStepMode::Vertex });
    assert_eq!(slots[2], VertexBufferState { total_size: 33, stride: 16, rate: InputStepMode::Instance });
    assert_eq!(run.state.vertex.vertex_limit, 0);
    assert_eq!(run.state.vertex.instance_limit, 2);
    let mut v = VertexState::new();
    v.update_limits();
    assert_eq!(v.vertex_limit, NO_LIMIT);
    assert_eq!(v.instance_limit, NO_LIMIT);
    v.reset();
    assert!(v.slots().is_empty());
    assert_eq!(v.vertex_limit, 0);
    assert_eq!(v.instance_limit, 0);
}

#[test]
fn draw_error_messages_name_the_problem() {
    assert!(DrawError::MissingPipeline.message().starts_with("MissingPipeline"));
    assert!(DrawError::MissingBlendColor.message().starts_with("MissingBlendColor"));
    assert!(DrawError::MissingStencilReference.message().starts_with("MissingStencilReference"));
    assert!(DrawError::IncompatibleBindGroup { index: 2 }.message().starts_with("IncompatibleBindGroup"));
}

#[test]
fn scissor_is_clamped_to_i16() {
    assert_eq!(scissor_rect(Rect { x: 1, y: 2, w: 3, h: 4 }), Rect { x: 1, y: 2, w: 3, h: 4 });
    assert_eq!(
        scissor_rect(Rect { x: 40000, y: 32767, w: 70000, h: 32768 }),
        Rect { x: 0, y: 32767, w: i16::MAX, h: i16::MAX }
    );
}

#[test]
fn state_starts_needing_a_pipeline() {
    let s = State::new(2);
    assert_eq!(s.pipeline, OptionalState::Required);
    assert_eq!(s.blend_color, OptionalState::Unused);
    assert_eq!(s.binder.entries.len(), 2);
    assert_eq!(s.is_ready(), Err(DrawError::MissingPipeline));
}

#[test]
fn index_format_change_rebinds_index_buffer() {
    let f = fixture();
    let mut run = new_run();
    run.set_index_buffer(&f.hub, f.index_buffer, 0, 16).unwrap();
    assert_eq!(run.state.index.limit, 4);
    run.set_pipeline(&f.hub, f.short_index).unwrap();
    assert_eq!(run.state.index.format, IndexFormat::Uint16);
    assert_eq!(run.state.index.limit, 8);
    let rebinds = run
        .ops
        .iter()
        .filter(|op| matches!(op, BackendOp::BindIndexBuffer { format: IndexFormat::Uint16, size: 16, .. }))
        .count();
    assert_eq!(rebinds, 1);
}

#[test]
fn read_only_pass_needs_read_only_pipeline() {
    let f = fixture();
    let mut run = new_run();
    run.is_ds_read_only = true;
    assert_eq!(run.set_pipeline(&f.hub, f.plain), Err(RenderPassError::PipelineNotReadOnly { id: f.plain }));
    let mut run = new_run();
    run.is_ds_read_only = true;
    assert_eq!(run.set_pipeline(&f.hub, f.read_only), Ok(()));
}

#[test]
fn misaligned_dynamic_offset_is_refused() {
    let mut groups = Storage::new();
    let group = groups.insert(BindGroup { layout_id: Id { index: 100, epoch: 0 }, dynamic_count: 2, used: empty_used() });
    let mut f = fixture();
    f.hub.bind_groups = groups;
    let mut run = new_run();
    assert_eq!(
        run.set_bind_group(&f.hub, 0, group, vec![256, 100]),
        Err(RenderPassError::MisalignedDynamicOffset { offset: 100 })
    );
    let mut run = new_run();
    assert_eq!(run.set_bind_group(&f.hub, 0, group, vec![256, 512]), Ok(()));
    let pair = run.state.binder.entries[0].provided.as_ref().unwrap();
    assert_eq!(pair.dynamic_offsets, vec![256, 512]);
}
