use wgpu_core::executor::{BackendOp, Hub, RenderPassError};
use wgpu_core::global::Global;
use wgpu_core::pass::{build_pass, is_depth_stencil_read_only, Layout, PassError};
use wgpu_core::raw_pass::RawPass;
use wgpu_core::render_ffi::{
    wgpu_render_pass_draw, wgpu_render_pass_finish, wgpu_render_pass_pop_debug_group,
    wgpu_render_pass_set_pipeline,
};
use wgpu_core::resources::{
    Aspects, BindGroup, Buffer, PipelineLayout, RenderBundle, RenderPassContext, RenderPipeline,
    Storage, Texture, TextureView, ViewSource, TEXTURE_USAGE_OUTPUT_ATTACHMENT,
    TEXTURE_USE_ATTACHMENT_READ, TEXTURE_USE_ATTACHMENT_WRITE,
};
use wgpu_core::tracker::UsageTracker;
use wgpu_core::codec::FramingError;
use wgpu_core::types::{
    Color, ColorAttachmentDescriptor, DepthStencilAttachmentDescriptor, Extent3d, Id,
    IndexFormat, LoadOp, RenderPassDescriptor, StoreOp, TextureFormat,
};

const COLOR: TextureFormat = TextureFormat { code: 23 };
const DEPTH: TextureFormat = TextureFormat { code: 40 };

fn extent(w: u32) -> Extent3d {
    Extent3d { width: w, height: 32, depth: 1 }
}

fn color_aspects() -> Aspects {
    Aspects { color: true, depth: false, stencil: false }
}

fn ds_aspects() -> Aspects {
    Aspects { color: false, depth: true, stencil: true }
}

struct Scene {
    hub: Hub,
    color: Id,
    color_b: Id,
    color_ms: Id,
    resolve: Id,
    depth: Id,
    narrow: Id,
    surface: Id,
    surface_other: Id,
    plain_texture_view: Id,
    pipeline: Id,
    texture: Id,
}

fn scene() -> Scene {
    let mut textures = Storage::new();
    let texture = textures.insert(Texture { usage: TEXTURE_USAGE_OUTPUT_ATTACHMENT });
    let texture_b = textures.insert(Texture { usage: TEXTURE_USAGE_OUTPUT_ATTACHMENT });
    let depth_texture = textures.insert(Texture { usage: TEXTURE_USAGE_OUTPUT_ATTACHMENT });
    let sampled_only = textures.insert(Texture { usage: 0x4 });
    let mut views = Storage::new();
    let view = |format, samples, w, aspects, source| TextureView { format, samples, extent: extent(w), aspects, source };
    let color = views.insert(view(COLOR, 1, 64, color_aspects(), ViewSource::Native { texture_id: texture }));
    let color_b = views.insert(view(COLOR, 1, 64, color_aspects(), ViewSource::Native { texture_id: texture_b }));
    let color_ms = views.insert(view(COLOR, 4, 64, color_aspects(), ViewSource::Native { texture_id: texture }));
    let resolve = views.insert(view(COLOR, 1, 64, color_aspects(), ViewSource::Native { texture_id: texture_b }));
    let depth = views.insert(view(DEPTH, 1, 64, ds_aspects(), ViewSource::Native { texture_id: depth_texture }));
    let narrow = views.insert(view(COLOR, 1, 32, color_aspects(), ViewSource::Native { texture_id: texture_b }));
    let surface = views.insert(view(COLOR, 1, 64, color_aspects(), ViewSource::SwapChain { swap_chain_id: Id { index: 0, epoch: 0 } }));
    let surface_other = views.insert(view(COLOR, 1, 64, color_aspects(), ViewSource::SwapChain { swap_chain_id: Id { index: 1, epoch: 0 } }));
    let plain_texture_view = views.insert(view(COLOR, 1, 64, color_aspects(), ViewSource::Native { texture_id: sampled_only }));
    let mut layouts = Storage::new();
    let layout = layouts.insert(PipelineLayout { bind_group_layout_ids: vec![] });
    let mut pipelines = Storage::new();
    let pipeline = pipelines.insert(RenderPipeline {
        pass_context: RenderPassContext { colors: vec![COLOR], resolves: vec![], depth_stencil: None, sample_count: 1 },
        layout_id: layout,
        needs_blend_color: false,
        needs_stencil_reference: false,
        depth_stencil_read_only: false,
        index_format: IndexFormat::Uint32,
        vertex_strides: vec![],
    });
    let hub = Hub {
        buffers: Storage::<Buffer>::new(),
        textures,
        views,
        bind_groups: Storage::<BindGroup>::new(),
        pipeline_layouts: layouts,
        render_pipelines: pipelines,
        render_bundles: Storage::<RenderBundle>::new(),
    };
    Scene { hub, color, color_b, color_ms, resolve, depth, narrow, surface, surface_other, plain_texture_view, pipeline, texture }
}

fn color_at(attachment: Id, load_op: LoadOp) -> ColorAttachmentDescriptor {
    ColorAttachmentDescriptor {
        attachment,
        resolve_target: None,
        load_op,
        store_op: StoreOp::Store,
        clear_color: Color { r: 0, g: 0, b: 0, a: 0 },
    }
}

fn depth_at(attachment: Id, depth_load_op: LoadOp, depth_read_only: bool) -> DepthStencilAttachmentDescriptor {
    DepthStencilAttachmentDescriptor {
        attachment,
        depth_load_op,
        depth_store_op: StoreOp::Store,
        clear_depth: 0,
        depth_read_only,
        stencil_load_op: LoadOp::Load,
        stencil_store_op: StoreOp::Store,
        clear_stencil: 0,
        stencil_read_only: depth_read_only,
    }
}

fn desc(colors: Vec<ColorAttachmentDescriptor>, ds: Option<DepthStencilAttachmentDescriptor>) -> RenderPassDescriptor {
    RenderPassDescriptor { color_attachments: colors, depth_stencil_attachment: ds }
}

fn tracker() -> UsageTracker {
    UsageTracker::new(0xa0)
}

#[test]
fn read_only_depth_with_clear_is_fatal() {
    let d = depth_at(Id { index: 0, epoch: 0 }, LoadOp::Clear, true);
    assert_eq!(is_depth_stencil_read_only(&d, ds_aspects()), Err(PassError::ClearReadOnlyDepth));
    let s = scene();
    let r = build_pass(&desc(vec![], Some(depth_at(s.depth, LoadOp::Clear, true))), &s.hub.views, &tracker(), None, 0x1);
    assert_eq!(r.unwrap_err(), PassError::ClearReadOnlyDepth);
}

#[test]
fn read_only_depth_rules() {
    let id = Id { index: 0, epoch: 0 };
    assert_eq!(is_depth_stencil_read_only(&depth_at(id, LoadOp::Clear, false), ds_aspects()), Ok(false));
    assert_eq!(is_depth_stencil_read_only(&depth_at(id, LoadOp::Load, true), ds_aspects()), Ok(true));
    let mut d = depth_at(id, LoadOp::Load, true);
    d.stencil_load_op = LoadOp::Clear;
    assert_eq!(is_depth_stencil_read_only(&d, ds_aspects()), Err(PassError::ClearReadOnlyStencil));
    d.stencil_read_only = false;
    assert_eq!(is_depth_stencil_read_only(&d, ds_aspects()), Ok(false));
}

#[test]
fn read_only_depth_pass_uses_read_layout() {
    let s = scene();
    let setup = build_pass(&desc(vec![], Some(depth_at(s.depth, LoadOp::Load, true))), &s.hub.views, &tracker(), None, 0x1).unwrap();
    assert!(setup.is_ds_read_only);
    assert_eq!(setup.output_attachments[0].new_use, TEXTURE_USE_ATTACHMENT_READ);
    assert_eq!(setup.rp_key.depth_stencil.unwrap().new_layout, Layout::DepthStencilReadOnlyOptimal);
}

#[test]
fn attachments_must_share_extent() {
    let s = scene();
    let r = build_pass(&desc(vec![color_at(s.color, LoadOp::Clear), color_at(s.narrow, LoadOp::Clear)], None), &s.hub.views, &tracker(), None, 0x1);
    assert_eq!(r.unwrap_err(), PassError::ExtentMismatch { id: s.narrow });
}

#[test]
fn colors_must_share_sample_count() {
    let s = scene();
    let r = build_pass(&desc(vec![color_at(s.color, LoadOp::Clear), color_at(s.color_ms, LoadOp::Clear)], None), &s.hub.views, &tracker(), None, 0x5);
    assert_eq!(r.unwrap_err(), PassError::SampleCountMismatch { id: s.color_ms });
}

#[test]
fn unsupported_sample_count_is_fatal() {
    let s = scene();
    let r = build_pass(&desc(vec![color_at(s.color_ms, LoadOp::Clear)], None), &s.hub.views, &tracker(), None, 0x1);
    assert_eq!(r.unwrap_err(), PassError::UnsupportedSampleCount { samples: 4 });
}

#[test]
fn resolve_rules() {
    let s = scene();
    let mut at = color_at(s.color_ms, LoadOp::Clear);
    at.resolve_target = Some(s.resolve);
    let setup = build_pass(&desc(vec![at], None), &s.hub.views, &tracker(), None, 0x5).unwrap();
    assert_eq!(setup.fb_key.resolves, vec![s.resolve]);
    assert_eq!(setup.sample_count, 4);
    let mut single = color_at(s.color, LoadOp::Clear);
    single.resolve_target = Some(s.resolve);
    let r = build_pass(&desc(vec![single], None), &s.hub.views, &tracker(), None, 0x5);
    assert_eq!(r.unwrap_err(), PassError::ResolveSourceNotMultisampled);
    let mut to_ms = color_at(s.color_ms, LoadOp::Clear);
    to_ms.resolve_target = Some(s.color_ms);
    let r = build_pass(&desc(vec![to_ms], None), &s.hub.views, &tracker(), None, 0x5);
    assert_eq!(r.unwrap_err(), PassError::ResolveMultisampled { id: s.color_ms });
}

#[test]
fn attachment_errors() {
    let s = scene();
    let missing = Id { index: 99, epoch: 0 };
    assert_eq!(build_pass(&desc(vec![], None), &s.hub.views, &tracker(), None, 0x1).unwrap_err(), PassError::NoAttachments);
    assert_eq!(
        build_pass(&desc(vec![color_at(missing, LoadOp::Load)], None), &s.hub.views, &tracker(), None, 0x1).unwrap_err(),
        PassError::InvalidView { id: missing }
    );
    let five = vec![color_at(s.color, LoadOp::Load); 5];
    assert_eq!(build_pass(&desc(five, None), &s.hub.views, &tracker(), None, 0x1).unwrap_err(), PassError::TooManyColorAttachments);
    assert_eq!(
        build_pass(&desc(vec![], Some(depth_at(s.surface, LoadOp::Load, false))), &s.hub.views, &tracker(), None, 0x1).unwrap_err(),
        PassError::SwapChainDepthStencil
    );
}

#[test]
fn one_swap_chain_image_per_pass() {
    let s = scene();
    let r = build_pass(&desc(vec![color_at(s.surface, LoadOp::Clear), color_at(s.surface_other, LoadOp::Clear)], None), &s.hub.views, &tracker(), None, 0x1);
    assert_eq!(r.unwrap_err(), PassError::MultipleSwapChainImages);
    let r = build_pass(&desc(vec![color_at(s.surface, LoadOp::Clear)], None), &s.hub.views, &tracker(), Some(Id { index: 1, epoch: 0 }), 0x1);
    assert_eq!(r.unwrap_err(), PassError::SwapChainMismatch { id: Id { index: 0, epoch: 0 } });
}

#[test]
fn swap_chain_layouts_follow_load_op() {
    let s = scene();
    let cleared = build_pass(&desc(vec![color_at(s.surface, LoadOp::Clear)], None), &s.hub.views, &tracker(), None, 0x1).unwrap();
    assert_eq!(cleared.rp_key.colors[0].old_layout, Layout::Undefined);
    assert_eq!(cleared.rp_key.colors[0].new_layout, Layout::Present);
    assert_eq!(cleared.swap_chain, Some(Id { index: 0, epoch: 0 }));
    assert!(cleared.output_attachments.is_empty());
    let loaded = build_pass(&desc(vec![color_at(s.surface, LoadOp::Load)], None), &s.hub.views, &tracker(), None, 0x1).unwrap();
    assert_eq!(loaded.rp_key.colors[0].old_layout, Layout::Present);
}

#[test]
fn previous_use_sets_initial_layout() {
    let s = scene();
    let mut base = tracker();
    base.change_extend(s.texture, 0x4);
    let setup = build_pass(&desc(vec![color_at(s.color, LoadOp::Load)], None), &s.hub.views, &base, None, 0x1).unwrap();
    assert_eq!(setup.rp_key.colors[0].old_layout, Layout::ShaderReadOnlyOptimal);
    assert_eq!(setup.rp_key.colors[0].new_layout, Layout::ColorAttachmentOptimal);
    assert_eq!(setup.output_attachments[0].previous_use, Some(0x4));
    assert_eq!(setup.output_attachments[0].new_use, TEXTURE_USE_ATTACHMENT_WRITE);
}

fn encoded_pass(colors: Vec<ColorAttachmentDescriptor>, s: &Scene) -> Vec<u8> {
    let mut pass = RawPass::new_render(Id { index: 0, epoch: 0 }, &desc(colors, None));
    wgpu_render_pass_set_pipeline(&mut pass, s.pipeline);
    wgpu_render_pass_draw(&mut pass, 0, 1, 0, 0);
    wgpu_render_pass_finish(&mut pass);
    pass.as_slice().to_vec()
}

fn creates(ops: &[BackendOp]) -> (usize, usize) {
    let passes = ops.iter().filter(|op| matches!(op, BackendOp::CreateRenderPass { .. })).count();
    let framebuffers = ops.iter().filter(|op| matches!(op, BackendOp::CreateFramebuffer { .. })).count();
    (passes, framebuffers)
}

#[test]
fn equal_passes_share_cached_objects() {
    let s = scene();
    let mut global = Global::new(s.hub.clone());
    let device = global.create_device(0x1, 4).unwrap();
    let cmb = global.create_command_buffer(device).unwrap();
    let bytes = encoded_pass(vec![color_at(s.color, LoadOp::Clear)], &s);
    global.command_encoder_run_render_pass(cmb, &bytes).unwrap();
    global.command_encoder_run_render_pass(cmb, &bytes).unwrap();
    let other = encoded_pass(vec![color_at(s.color_b, LoadOp::Clear)], &s);
    global.command_encoder_run_render_pass(cmb, &other).unwrap();
    let recorded = &global.command_buffers.get(cmb).unwrap().passes;
    assert_eq!(recorded.len(), 3);
    assert_eq!(creates(&recorded[0].ops), (1, 1));
    assert_eq!(creates(&recorded[1].ops), (0, 0));
    assert_eq!(creates(&recorded[2].ops), (0, 1));
    let begin = |ops: &[BackendOp]| {
        ops.iter()
            .find_map(|op| match op {
                BackendOp::BeginRenderPass { render_pass, framebuffer, .. } => Some((*render_pass, *framebuffer)),
                _ => None,
            })
            .unwrap()
    };
    let (rp0, fb0) = begin(&recorded[0].ops);
    let (rp1, fb1) = begin(&recorded[1].ops);
    let (rp2, fb2) = begin(&recorded[2].ops);
    assert_eq!((rp0, fb0), (rp1, fb1));
    assert_eq!(rp2, rp0);
    assert_ne!(fb2, fb0);
    let loaded = encoded_pass(vec![color_at(s.color, LoadOp::Load)], &s);
    global.command_encoder_run_render_pass(cmb, &loaded).unwrap();
    let recorded = &global.command_buffers.get(cmb).unwrap().passes;
    assert_eq!(creates(&recorded[3].ops), (1, 0));
}

#[test]
fn swap_chain_framebuffers_are_not_cached() {
    let s = scene();
    let mut global = Global::new(s.hub.clone());
    let device = global.create_device(0x1, 4).unwrap();
    let cmb = global.create_command_buffer(device).unwrap();
    let bytes = encoded_pass(vec![color_at(s.surface, LoadOp::Clear)], &s);
    global.command_encoder_run_render_pass(cmb, &bytes).unwrap();
    global.command_encoder_run_render_pass(cmb, &bytes).unwrap();
    let buffer = global.command_buffers.get(cmb).unwrap();
    assert_eq!(creates(&buffer.passes[1].ops), (0, 1));
    assert_eq!(buffer.swap_chain_framebuffers.len(), 2);
    assert_eq!(buffer.used_swap_chain, Some(Id { index: 0, epoch: 0 }));
}

#[test]
fn failed_pass_discards_command_buffer() {
    let s = scene();
    let mut global = Global::new(s.hub.clone());
    let device = global.create_device(0x1, 4).unwrap();
    let cmb = global.create_command_buffer(device).unwrap();
    let mut pass = RawPass::new_render(Id { index: 0, epoch: 0 }, &desc(vec![color_at(s.color, LoadOp::Clear)], None));
    wgpu_render_pass_pop_debug_group(&mut pass);
    wgpu_render_pass_finish(&mut pass);
    assert_eq!(global.command_encoder_run_render_pass(cmb, pass.as_slice()), Err(RenderPassError::DebugGroupUnderflow));
    assert!(global.command_buffers.get(cmb).is_none());
    assert_eq!(
        global.command_encoder_run_render_pass(cmb, pass.as_slice()),
        Err(RenderPassError::InvalidCommandBuffer { id: cmb })
    );
}

#[test]
fn truncated_stream_is_a_framing_error() {
    let s = scene();
    let mut global = Global::new(s.hub.clone());
    let device = global.create_device(0x1, 4).unwrap();
    let cmb = global.create_command_buffer(device).unwrap();
    let bytes = encoded_pass(vec![color_at(s.color, LoadOp::Clear)], &s);
    let cut = &bytes[..bytes.len() - 1];
    assert!(matches!(
        global.command_encoder_run_render_pass(cmb, cut),
        Err(RenderPassError::Framing(FramingError::Truncated { .. }))
    ));
}

#[test]
fn attachment_without_output_usage_is_fatal() {
    let s = scene();
    let mut global = Global::new(s.hub.clone());
    let device = global.create_device(0x1, 4).unwrap();
    let cmb = global.create_command_buffer(device).unwrap();
    let bytes = encoded_pass(vec![color_at(s.plain_texture_view, LoadOp::Clear)], &s);
    assert!(matches!(
        global.command_encoder_run_render_pass(cmb, &bytes),
        Err(RenderPassError::MissingTextureUsage { .. })
    ));
}

#[test]
fn removed_resource_handle_is_not_found() {
    let mut table: Storage<u32> = Storage::new();
    let a = table.insert(7);
    assert_eq!(table.get(a), Some(&7));
    assert_eq!(table.remove(a), Some(7));
    assert_eq!(table.get(a), None);
    let b = table.insert(8);
    assert_ne!(a, b);
    assert_eq!(table.get(b), Some(&8));
}

#[test]
fn usage_tracker_detects_conflicts() {
    let mut t = UsageTracker::new(0x20);
    let id = Id { index: 1, epoch: 0 };
    assert!(t.use_extend(id, 0x4).is_ok());
    assert!(t.use_extend(id, 0x10).is_ok());
    assert_eq!(t.query(id), Some(0x14));
    let e = t.use_extend(id, 0x20).unwrap_err();
    assert_eq!((e.old, e.new), (0x14, 0x20));
    let other = Id { index: 2, epoch: 0 };
    assert!(t.use_extend(other, 0x20).is_ok());
    assert!(t.use_extend(other, 0x20).is_ok());
    assert!(t.use_extend(other, 0x4).is_err());
}

#[test]
fn read_only_stencil_with_clear_is_fatal_even_with_writable_depth() {
    let mut d = depth_at(Id { index: 0, epoch: 0 }, LoadOp::Clear, false);
    d.stencil_read_only = true;
    d.stencil_load_op = LoadOp::Clear;
    assert_eq!(is_depth_stencil_read_only(&d, ds_aspects()), Err(PassError::ClearReadOnlyStencil));
}
