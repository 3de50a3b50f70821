//! Devices, command buffers, and running a recorded render pass into a command buffer.
use vstd::prelude::*;
use crate::bytes::read_le;
use crate::cache::{cached_framebuffer, cached_pass, framebuffer_lookup_or_insert, pass_lookup_or_insert, lemma_framebuffer_cached_after, lemma_pass_cached_after, PassCache};
use crate::codec::{decode_record, parse_commands, RenderCommand};
use crate::executor::{draw_allowed, scissor_rect, BackendOp, Hub, PassRun, RenderPassError};
use crate::pass::{build_error_witness, build_pass, fb_key_view, lemma_build_error_not_buildable, lemma_equal_descriptors_equal_keys, pass_buildable, rp_key_view, setup_matches, setup_view, FramebufferKey, OutputAttachment, PassSetup, RenderPassKey};
use crate::tracker::id_key;
use crate::types::{ColorAttachmentDescriptor, DepthStencilAttachmentDescriptor, IndexFormat, RenderPassDescriptor};
use crate::state::IndexState;
use crate::resources::{context_view, has_bits, RenderPassContext, Storage, TEXTURE_USAGE_OUTPUT_ATTACHMENT};
use crate::slots::slots_of;
use crate::model::{lemma_run_stream_records, run_records, entries_view, follows, ops_view, run_stream, run_view, step, step_bind_group, EntryView, OpView, RunView};
use crate::state::{readiness, OptionalState, State};
use crate::raw_pass::offsets_from;
use crate::targets::{decode_targets, parse_targets, targets_bytes, TARGETS_SIZE};
use crate::raw_pass::lemma_pass_round_trip;
use crate::codec::{record_wf, stream_bytes};
use crate::tracker::TrackerSet;
use crate::types::Id;

verus! {

/// A device: its cache of backend passes and framebuffers, and its limits.
#[derive(Clone, Debug)]
pub struct Device {
    pub cache: PassCache,
    /// The sample counts the device supports, one bit per count.
    pub sample_count_mask: u32,
    pub max_bind_groups: u32,
}

/// What running a pass records: what its attachments gave, the backend operations,
/// and the uses the pass made.
#[derive(Clone, Debug)]
pub struct PassRecording {
    pub setup: PassSetup,
    /// The backend pass and framebuffer the pass runs in.
    pub render_pass: u32,
    pub framebuffer: u32,
    pub ops: Vec<BackendOp>,
    pub trackers: TrackerSet,
}

/// A command buffer being recorded.
#[derive(Clone, Debug)]
pub struct CommandBuffer {
    pub device_id: Id,
    /// The use of each texture and buffer before the passes still to be recorded.
    pub trackers: TrackerSet,
    /// The swap chain whose image the command buffer draws into, if any.
    pub used_swap_chain: Option<Id>,
    /// Framebuffers of swap chain images, destroyed once the image is presented.
    pub swap_chain_framebuffers: Vec<u32>,
    /// The passes recorded so far.
    pub passes: Vec<PassRecording>,
}

/// The resource tables, devices and command buffers.
#[derive(Clone, Debug)]
pub struct Global {
    pub hub: Hub,
    pub devices: Storage<Device>,
    pub command_buffers: Storage<CommandBuffer>,
}

/// The write uses of buffers and of textures.
pub const BUFFER_WRITE_USES: u32 = 0x80;
pub const TEXTURE_WRITE_USES: u32 = 0xa0;

fn copy_vec<T: Copy>(v: &Vec<T>) -> (r: Vec<T>)
    ensures
        r@ == v@,
{
    let mut r: Vec<T> = Vec::new();
    let mut i: usize = 0;
    while i < v.len()
        invariant
            i <= v@.len(),
            r@ == v@.take(i as int),
        decreases v@.len() - i,
    {
        r.push(v[i]);
        i = i + 1;
        assert(r@ =~= v@.take(i as int));
    }
    assert(v@.take(i as int) =~= v@);
    r
}

/// The dynamic offsets held in a trailer, four little-endian bytes each.
fn decode_offsets(t: &Vec<u8>) -> (r: Vec<u32>)
    ensures
        r@ == offsets_from(t@),
{
    let len = t.len();
    let n = len / 4;
    let mut r: Vec<u32> = Vec::new();
    let mut k: usize = 0;
    while k < n
        invariant
            k <= n,
            len == t@.len(),
            n == t@.len() / 4,
            r@ == offsets_from(t@).take(k as int),
        decreases n - k,
    {
        assert(4 * k + 4 <= len) by (nonlinear_arith)
            requires
                k < n,
                n == len / 4,
        ;
        let v = read_le(t.as_slice(), 4 * k, 4);
        proof {
            crate::bytes::lemma_le_value_bound(t@.subrange(4 * k as int, 4 * k + 4));
            crate::bytes::lemma_pow256_values();
        }
        r.push(v as u32);
        k = k + 1;
        assert(r@ =~= offsets_from(t@).take(k as int));
    }
    assert(offsets_from(t@).take(k as int) =~= offsets_from(t@));
    r
}

/// Runs one command, with its trailer `t`, against the pass; `End` is handled by the
/// caller.
fn run_command(run: &mut PassRun, hub: &Hub, c: RenderCommand, t: Vec<u8>) -> (r: Result<(), RenderPassError>)
    requires
        old(run).wf(),
    ensures
        final(run).wf(),
        follows(r, run_view(*final(run)), step(run_view(*old(run)), *hub, c, t@)),
{
    match c {
        RenderCommand::SetBindGroup { index, bind_group_id, .. } => {
            let offsets = decode_offsets(&t);
            let ghost os = offsets@;
            assert(os == offsets_from(t@));
            let r = run.set_bind_group(hub, index, bind_group_id, offsets);
            assert(follows(r, run_view(*run), step_bind_group(run_view(*old(run)), *hub, index, bind_group_id, os)));
            assert(step(run_view(*old(run)), *hub, c, t@) == step_bind_group(run_view(*old(run)), *hub, index, bind_group_id, offsets_from(t@)));
            r
        },
        RenderCommand::SetPipeline(id) => run.set_pipeline(hub, id),
        RenderCommand::SetIndexBuffer { buffer_id, offset, size } => run.set_index_buffer(hub, buffer_id, offset, size),
        RenderCommand::SetVertexBuffer { slot, buffer_id, offset, size } => run.set_vertex_buffer(hub, slot, buffer_id, offset, size),
        RenderCommand::SetBlendColor(color) => {
            run.set_blend_color(color);
            Ok(())
        },
        RenderCommand::SetStencilReference(value) => {
            run.set_stencil_reference(value);
            Ok(())
        },
        RenderCommand::SetViewport { rect, depth_min, depth_max } => {
            run.ops.push(BackendOp::SetViewport { rect, depth_min, depth_max });
            assert(ops_view(run.ops@) =~= ops_view(old(run).ops@).push(OpView::SetViewport { rect, depth_min, depth_max }));
            assert(run_view(*run).entries =~= run_view(*old(run)).entries);
            Ok(())
        },
        RenderCommand::SetScissor(rect) => {
            let r = scissor_rect(rect);
            run.ops.push(BackendOp::SetScissor(r));
            assert(ops_view(run.ops@) =~= ops_view(old(run).ops@).push(OpView::SetScissor(r)));
            assert(run_view(*run).entries =~= run_view(*old(run)).entries);
            Ok(())
        },
        RenderCommand::Draw { vertex_count, instance_count, first_vertex, first_instance } => run.draw(vertex_count, instance_count, first_vertex, first_instance),
        RenderCommand::DrawIndexed { index_count, instance_count, first_index, base_vertex, first_instance } => run.draw_indexed(index_count, instance_count, first_index, base_vertex, first_instance),
        RenderCommand::DrawIndirect { buffer_id, offset } => run.draw_indirect(hub, buffer_id, offset, false),
        RenderCommand::DrawIndexedIndirect { buffer_id, offset } => run.draw_indirect(hub, buffer_id, offset, true),
        RenderCommand::PushDebugGroup { color, .. } => run.push_debug_group(t, color),
        RenderCommand::PopDebugGroup => run.pop_debug_group(),
        RenderCommand::InsertDebugMarker { color, .. } => {
            let ghost label = t@;
            run.ops.push(BackendOp::InsertDebugMarker { label: t, color });
            assert(ops_view(run.ops@) =~= ops_view(old(run).ops@).push(OpView::InsertDebugMarker { label, color }));
            assert(run_view(*run).entries =~= run_view(*old(run)).entries);
            Ok(())
        },
        RenderCommand::ExecuteBundle(id) => run.execute_bundle(hub, id),
        RenderCommand::End => Ok(()),
    }
}

impl RenderPassKey {
    pub fn duplicate(&self) -> (r: RenderPassKey)
        ensures
            rp_key_view(r) == rp_key_view(*self),
    {
        RenderPassKey { colors: copy_vec(&self.colors), resolves: copy_vec(&self.resolves), depth_stencil: self.depth_stencil }
    }
}

impl FramebufferKey {
    pub fn duplicate(&self) -> (r: FramebufferKey)
        ensures
            fb_key_view(r) == fb_key_view(*self),
    {
        FramebufferKey { colors: copy_vec(&self.colors), resolves: copy_vec(&self.resolves), depth_stencil: self.depth_stencil }
    }
}

/// The backend pass that a pass of setup `s` gets from `cache`, and whether it is new.
pub open spec fn pass_handle(cache: PassCache, s: PassSetup) -> (u32, bool) {
    match cached_pass(cache.render_passes@, s.rp_key) {
        Some(h) => (h, false),
        None => (cache.next_handle, true),
    }
}

/// The framebuffer that a pass of setup `s` gets: a new one for a swap chain image,
/// else the cached one or a new one; and whether it is new.
pub open spec fn framebuffer_handle(cache: PassCache, s: PassSetup) -> (u32, bool) {
    let next = (if pass_handle(cache, s).1 { cache.next_handle + 1 } else { cache.next_handle as int }) as u32;
    if s.swap_chain is Some {
        (next, true)
    } else {
        match cached_framebuffer(cache.framebuffers@, s.fb_key) {
            Some(h) => (h, false),
            None => (next, true),
        }
    }
}

/// The operations that open a pass: creating what the cache lacks, then beginning it.
pub open spec fn opening_ops(cache: PassCache, s: PassSetup) -> Seq<OpView> {
    let (rp, rp_new) = pass_handle(cache, s);
    let (fb, fb_new) = framebuffer_handle(cache, s);
    (if rp_new { seq![OpView::CreateRenderPass { handle: rp }] } else { Seq::empty() })
        + (if fb_new { seq![OpView::CreateFramebuffer { handle: fb, render_pass: rp, extent: s.extent }] } else { Seq::empty() })
        + seq![OpView::BeginRenderPass { render_pass: rp, framebuffer: fb, extent: s.extent }]
}

/// The pass before its first command.
pub open spec fn start_view(s: PassSetup, max_bind_groups: u32, ops: Seq<OpView>) -> RunView {
    RunView {
        context: (s.color_formats@, s.resolve_formats@, s.depth_stencil_format, s.sample_count),
        ds_read_only: s.is_ds_read_only,
        layout: None,
        entries: Seq::new(max_bind_groups as nat, |i: int| EntryView { expected: None, provided: None }),
        blend: OptionalState::Unused,
        stencil: OptionalState::Unused,
        pipeline: OptionalState::Required,
        index: IndexState { bound_buffer_view: None, format: IndexFormat::Uint32, limit: 0 },
        slots: Seq::empty(),
        vertex_limit: 0,
        instance_limit: 0,
        depth: 0,
        buffers: Map::empty(),
        buffer_mask: BUFFER_WRITE_USES,
        textures: Map::empty(),
        texture_mask: TEXTURE_WRITE_USES,
        ops,
    }
}

/// Settling the attachments at the end of a pass: each texture must allow use as an
/// attachment, and its use becomes the one the pass gave it.
pub open spec fn settle(textures: Map<u64, u32>, hub: Hub, oas: Seq<OutputAttachment>) -> Result<Map<u64, u32>, RenderPassError>
    decreases oas.len(),
{
    if oas.len() == 0 {
        Ok(textures)
    } else {
        let o = oas[0];
        match hub.textures.lookup(o.texture_id) {
            None => Err(RenderPassError::InvalidTexture { id: o.texture_id }),
            Some(t) => if !has_bits(t.usage, TEXTURE_USAGE_OUTPUT_ATTACHMENT) {
                Err(RenderPassError::MissingTextureUsage { id: o.texture_id, usage: t.usage })
            } else {
                settle(textures.insert(id_key(o.texture_id), o.new_use), hub, oas.drop_first())
            },
        }
    }
}

/// What running the commands of `raw` gives for a pass of valid setup `s` on `device`:
/// the pass after its last command with the settled texture uses, or the first error.
pub open spec fn pass_outcome(hub: Hub, device: Device, s: PassSetup, raw: Seq<u8>) -> Result<(RunView, Map<u64, u32>), RenderPassError> {
    if device.cache.next_handle >= u32::MAX - 1 {
        Err(RenderPassError::TooManyBackendObjects)
    } else {
        match run_stream(start_view(s, device.max_bind_groups, opening_ops(device.cache, s)), hub, raw.skip(TARGETS_SIZE as int), TARGETS_SIZE) {
            Err(e) => Err(e),
            Ok(v) => match settle(v.textures, hub, s.output_attachments@) {
                Err(e) => Err(e),
                Ok(t) => Ok((v, t)),
            },
        }
    }
}

/// The setup of valid attachments (all that match are alike; see
/// `lemma_equal_descriptors_equal_keys`).
pub open spec fn the_setup(
    colors: Seq<ColorAttachmentDescriptor>,
    ds: Option<DepthStencilAttachmentDescriptor>,
    hub: Hub,
    cmb: CommandBuffer,
    device: Device,
) -> PassSetup {
    choose|s: PassSetup| setup_matches(colors, ds, hub.views, cmb.trackers.textures, cmb.used_swap_chain, device.sample_count_mask, s)
}

/// How the cache moves for a pass of setup `s`: a lookup of its pass key, then of its
/// framebuffer key, or a fresh handle for a swap chain image.
pub open spec fn cache_moves(old: PassCache, new: PassCache, s: PassSetup) -> bool {
    exists|mid: PassCache, k: RenderPassKey, c: bool|
        rp_key_view(k) == rp_key_view(s.rp_key) && #[trigger] pass_lookup_or_insert(old, k, mid, pass_handle(old, s).0, c)
        && if s.swap_chain is None {
            exists|k2: FramebufferKey, c2: bool| fb_key_view(k2) == fb_key_view(s.fb_key)
                && #[trigger] framebuffer_lookup_or_insert(mid, k2, new, framebuffer_handle(old, s).0, c2)
        } else {
            new.render_passes == mid.render_passes && new.framebuffers == mid.framebuffers
                && new.next_handle == mid.next_handle + 1
        }
}

/// What running the pass recorded in `raw` for `cmb` on `device` owes: a framing error
/// for a bad header, an attachment error for invalid attachments, else the outcome of
/// its commands.
pub open spec fn pass_contract(hub: Hub, device: Device, cmb: CommandBuffer, raw: Seq<u8>, r: Result<PassRecording, RenderPassError>, device_after: Device) -> bool {
    match parse_targets(raw) {
        Err(e) => r == Err::<PassRecording, RenderPassError>(RenderPassError::Framing(e)),
        Ok((colors, ds)) => if !pass_buildable(colors, ds, hub.views, cmb.trackers.textures, cmb.used_swap_chain, device.sample_count_mask) {
            r is Err && r->Err_0 is Attachments && exists|d: RenderPassDescriptor|
                d.color_attachments@ == colors && d.depth_stencil_attachment == ds
                && #[trigger] build_error_witness(d, hub.views, cmb.used_swap_chain, device.sample_count_mask, r->Err_0->Attachments_0)
        } else {
            let s = the_setup(colors, ds, hub, cmb, device);
            match pass_outcome(hub, device, s, raw) {
                Err(e) => r == Err::<PassRecording, RenderPassError>(e),
                Ok((v, tex)) => {
                    &&& r is Ok
                    &&& setup_view(r->Ok_0.setup) == setup_view(s)
                    &&& ops_view(r->Ok_0.ops@) == v.ops.push(OpView::EndRenderPass)
                    &&& r->Ok_0.trackers.buffers.uses@ == v.buffers
                    &&& r->Ok_0.trackers.textures.uses@ == tex
                    &&& r->Ok_0.render_pass == pass_handle(device.cache, s).0
                    &&& r->Ok_0.framebuffer == framebuffer_handle(device.cache, s).0
                    &&& cache_moves(device.cache, device_after.cache, s)
                },
            }
        },
    }
}

/// Runs the pass recorded in `raw_data` for `cmb` on `device`.
#[verifier::loop_isolation(false)]
#[verifier::rlimit(100)]
#[verifier::spinoff_prover]
fn run_pass(hub: &Hub, device: &mut Device, cmb: &mut CommandBuffer, raw_data: &[u8]) -> (r: Result<PassRecording, RenderPassError>)
    requires
        old(device).cache.wf(),
    ensures
        pass_contract(*hub, *old(device), *old(cmb), raw_data@, r, *final(device)),
        final(device).cache.wf(),
        final(device).sample_count_mask == old(device).sample_count_mask,
        final(device).max_bind_groups == old(device).max_bind_groups,
        final(cmb).passes == old(cmb).passes,
        final(cmb).device_id == old(cmb).device_id,
        parse_targets(raw_data@) is Err ==> r == Err::<PassRecording, RenderPassError>(RenderPassError::Framing(parse_targets(raw_data@)->Err_0)),
        r is Ok ==> {
            let (colors, ds) = parse_targets(raw_data@)->Ok_0;
            let s = r->Ok_0.setup;
            &&& parse_targets(raw_data@) is Ok
            &&& setup_matches(colors, ds, hub.views, old(cmb).trackers.textures, old(cmb).used_swap_chain, old(device).sample_count_mask, s)
            &&& parse_commands(raw_data@.skip(TARGETS_SIZE as int), TARGETS_SIZE) is Ok
            &&& cached_pass(final(device).cache.render_passes@, s.rp_key) == Some(r->Ok_0.render_pass)
            &&& (s.swap_chain is None ==> cached_framebuffer(final(device).cache.framebuffers@, s.fb_key) == Some(r->Ok_0.framebuffer))
            &&& (s.swap_chain is Some ==> final(cmb).used_swap_chain == s.swap_chain
                && final(cmb).swap_chain_framebuffers@ == old(cmb).swap_chain_framebuffers@.push(r->Ok_0.framebuffer))
            &&& r->Ok_0.ops@.len() > 0
            &&& r->Ok_0.ops@.last() is EndRenderPass
            &&& forall|k: int| 0 <= k < s.output_attachments@.len() ==> hub.textures.lookup(#[trigger] s.output_attachments@[k].texture_id) is Some
                && has_bits(hub.textures.lookup(s.output_attachments@[k].texture_id)->0.usage, TEXTURE_USAGE_OUTPUT_ATTACHMENT)
        },
{
    let desc = match decode_targets(raw_data) {
        Ok(d) => d,
        Err(e) => {
            return Err(RenderPassError::Framing(e));
        },
    };
    let ghost colors = desc.color_attachments@;
    let ghost ds = desc.depth_stencil_attachment;
    let ghost base = cmb.trackers.textures;
    let setup = match build_pass(&desc, &hub.views, &cmb.trackers.textures, cmb.used_swap_chain, device.sample_count_mask) {
        Ok(s) => s,
        Err(e) => {
            proof {
                lemma_build_error_not_buildable(desc, hub.views, base, old(cmb).used_swap_chain, old(device).sample_count_mask, e);
                assert(build_error_witness(desc, hub.views, old(cmb).used_swap_chain, old(device).sample_count_mask, e));
            }
            return Err(RenderPassError::Attachments(e));
        },
    };
    let ghost sc = the_setup(colors, ds, *hub, *old(cmb), *old(device));
    proof {
        assert(pass_buildable(colors, ds, hub.views, base, old(cmb).used_swap_chain, old(device).sample_count_mask));
        lemma_equal_descriptors_equal_keys(colors, ds, hub.views, base, old(cmb).used_swap_chain, old(device).sample_count_mask, setup, sc);
    }
    let mut ops: Vec<BackendOp> = Vec::new();
    if device.cache.next_handle >= u32::MAX - 1 {
        return Err(RenderPassError::TooManyBackendObjects);
    }
    let ghost cache0 = device.cache;
    let key = setup.rp_key.duplicate();
    let (render_pass, created) = device.cache.render_pass(key);
    proof {
        lemma_pass_cached_after(cache0, key, device.cache, render_pass, created);
        assert(cached_pass(cache0.render_passes@, key) == cached_pass(cache0.render_passes@, sc.rp_key));
        assert((render_pass, created) == pass_handle(cache0, sc));
    }
    let ghost mid = device.cache;
    let ghost k1 = key;
    assert(cached_pass(device.cache.render_passes@, setup.rp_key) == Some(render_pass));
    if created {
        ops.push(BackendOp::CreateRenderPass { handle: render_pass });
    }
    let ghost ops_rp = ops_view(ops@);
    assert(ops_rp =~= (if created { seq![OpView::CreateRenderPass { handle: render_pass }] } else { Seq::<OpView>::empty() }));
    let framebuffer = match setup.swap_chain {
        Some(sc_id) => {
            let h = device.cache.fresh_handle();
            assert((h, true) == framebuffer_handle(cache0, sc));
            let ghost before = ops_view(ops@);
            ops.push(BackendOp::CreateFramebuffer { handle: h, render_pass, extent: setup.extent });
            assert(ops_view(ops@) =~= before.push(OpView::CreateFramebuffer { handle: h, render_pass, extent: sc.extent }));
            cmb.used_swap_chain = Some(sc_id);
            cmb.swap_chain_framebuffers.push(h);
            assert(cache_moves(cache0, device.cache, sc)) by {
                assert(pass_lookup_or_insert(cache0, k1, mid, pass_handle(cache0, sc).0, created));
            }
            h
        },
        None => {
            let ghost cache1 = device.cache;
            let fb_key = setup.fb_key.duplicate();
            let (h, fb_created) = device.cache.framebuffer(fb_key);
            proof {
                lemma_framebuffer_cached_after(cache1, fb_key, device.cache, h, fb_created);
                assert(cached_framebuffer(cache1.framebuffers@, fb_key) == cached_framebuffer(cache0.framebuffers@, sc.fb_key));
                assert((h, fb_created) == framebuffer_handle(cache0, sc));
            }
            let ghost before = ops_view(ops@);
            if fb_created {
                ops.push(BackendOp::CreateFramebuffer { handle: h, render_pass, extent: setup.extent });
            }
            assert(ops_view(ops@) =~= before + (if fb_created { seq![OpView::CreateFramebuffer { handle: h, render_pass, extent: sc.extent }] } else { Seq::<OpView>::empty() }));
            assert(cache_moves(cache0, device.cache, sc)) by {
                assert(pass_lookup_or_insert(cache0, k1, mid, pass_handle(cache0, sc).0, created));
                assert(framebuffer_lookup_or_insert(mid, fb_key, device.cache, framebuffer_handle(cache0, sc).0, fb_created));
            }
            h
        },
    };
    let ghost before_begin = ops_view(ops@);
    ops.push(BackendOp::BeginRenderPass { render_pass, framebuffer, extent: setup.extent });
    assert(ops_view(ops@) =~= before_begin.push(OpView::BeginRenderPass { render_pass, framebuffer, extent: sc.extent }));
    assert(ops_view(ops@) =~= opening_ops(cache0, sc));
    let context = RenderPassContext {
        colors: copy_vec(&setup.color_formats),
        resolves: copy_vec(&setup.resolve_formats),
        depth_stencil: setup.depth_stencil_format,
        sample_count: setup.sample_count,
    };
    let mut run = PassRun {
        state: State::new(device.max_bind_groups),
        trackers: TrackerSet::new(BUFFER_WRITE_USES, TEXTURE_WRITE_USES),
        ops,
        context,
        is_ds_read_only: setup.is_ds_read_only,
    };
    let ghost cache_after = device.cache;
    let ghost v0 = start_view(sc, old(device).max_bind_groups, opening_ops(cache0, sc));
    proof {
        assert(entries_view(run.state.binder.entries@) =~= v0.entries);
        assert(slots_of(run.state.vertex.inputs) =~= v0.slots);
        assert(run.trackers.buffers.uses@ =~= v0.buffers);
        assert(run.trackers.textures.uses@ =~= v0.textures);
        assert(run_view(run) == v0);
    }
    let len = raw_data.len();
    let mut pos: usize = TARGETS_SIZE;
    let ghost start = TARGETS_SIZE;
    loop
        invariant
            run.wf(),
            start <= pos <= len,
            len == raw_data@.len(),
            parse_commands(raw_data@.skip(pos as int), pos) is Ok ==> parse_commands(raw_data@.skip(start as int), start) is Ok,
            device.cache.wf(),
            device.cache == cache_after,
            run_stream(v0, *hub, raw_data@.skip(start as int), start) == run_stream(run_view(run), *hub, raw_data@.skip(pos as int), pos),
        decreases len - pos,
    {
        let ghost s = raw_data@.skip(pos as int);
        let (c, t, next) = match decode_record(raw_data, pos) {
            Ok(rec) => rec,
            Err(e) => {
                return Err(RenderPassError::Framing(e));
            },
        };
        if c == RenderCommand::End {
            break;
        }
        proof {
            assert(s.skip((next - pos) as int) =~= raw_data@.skip(next as int));
        }
        if let Err(e) = run_command(&mut run, hub, c, t) {
            return Err(e);
        }
        pos = next;
    }
    let ghost v_end = run_view(run);
    assert(run_stream(v0, *hub, raw_data@.skip(start as int), start) == Ok::<RunView, RenderPassError>(v_end));
    run.ops.push(BackendOp::EndRenderPass);
    assert(ops_view(run.ops@) =~= v_end.ops.push(OpView::EndRenderPass));
    let ghost ops_end = run.ops@;
    let n = setup.output_attachments.len();
    let mut k: usize = 0;
    assert(setup.output_attachments@.skip(0) =~= setup.output_attachments@);
    while k < n
        invariant
            k <= n,
            run.ops@ == ops_end,
            run.trackers.buffers.uses@ == v_end.buffers,
            settle(v_end.textures, *hub, setup.output_attachments@) == settle(run.trackers.textures.uses@, *hub, setup.output_attachments@.skip(k as int)),
            n == setup.output_attachments@.len(),
            forall|j: int| 0 <= j < k ==> hub.textures.lookup(#[trigger] setup.output_attachments@[j].texture_id) is Some
                && has_bits(hub.textures.lookup(setup.output_attachments@[j].texture_id)->0.usage, TEXTURE_USAGE_OUTPUT_ATTACHMENT),
        decreases n - k,
    {
        let ot = setup.output_attachments[k];
        let texture = match hub.textures.get(ot.texture_id) {
            Some(t) => *t,
            None => {
                return Err(RenderPassError::InvalidTexture { id: ot.texture_id });
            },
        };
        if texture.usage & TEXTURE_USAGE_OUTPUT_ATTACHMENT != TEXTURE_USAGE_OUTPUT_ATTACHMENT {
            return Err(RenderPassError::MissingTextureUsage { id: ot.texture_id, usage: texture.usage });
        }
        assert(setup.output_attachments@.skip(k as int).drop_first() =~= setup.output_attachments@.skip(k + 1));
        run.trackers.textures.change_extend(ot.texture_id, ot.new_use);
        k = k + 1;
    }
    assert(setup.output_attachments@.skip(k as int).len() == 0);
    Ok(PassRecording { setup, render_pass, framebuffer, ops: run.ops, trackers: run.trackers })
}


impl Global {
    /// Every device's cache is well formed.
    pub open spec fn wf(&self) -> bool {
        forall|i: int|
            0 <= i < self.devices.slots@.len() && (#[trigger] self.devices.slots@[i]).value is Some
                ==> self.devices.slots@[i].value->0.cache.wf()
    }

    /// Empty tables, no devices and no command buffers.
    pub fn new(hub: Hub) -> (r: Self)
        ensures
            r.wf(),
            r.hub == hub,
    {
        Global { hub, devices: Storage::new(), command_buffers: Storage::new() }
    }

    /// Adds a device with an empty cache.
    pub fn create_device(&mut self, sample_count_mask: u32, max_bind_groups: u32) -> (r: Option<Id>)
        requires
            old(self).wf(),
        ensures
            final(self).wf(),
            final(self).hub == old(self).hub,
            final(self).command_buffers == old(self).command_buffers,
            r is None <==> old(self).devices.slots@.len() >= u32::MAX - 1,
            r is Some ==> final(self).devices.lookup(r->0) == Some(Device { cache: final(self).devices.lookup(r->0)->0.cache, sample_count_mask, max_bind_groups }),
            r is Some ==> final(self).devices.lookup(r->0)->0.cache.render_passes@.len() == 0
                && final(self).devices.lookup(r->0)->0.cache.framebuffers@.len() == 0,
    {
        if self.devices.slots.len() >= u32::MAX as usize - 1 {
            return None;
        }
        let device = Device { cache: PassCache::new(), sample_count_mask, max_bind_groups };
        let ghost old_slots = self.devices.slots@;
        let id = self.devices.insert(device);
        proof {
            assert forall|i: int| 0 <= i < self.devices.slots@.len() && (#[trigger] self.devices.slots@[i]).value is Some implies self.devices.slots@[i].value->0.cache.wf() by {
                if i < old_slots.len() {
                    assert(self.devices.slots@[i] == old_slots[i]);
                }
            }
        }
        Some(id)
    }

    /// Starts a command buffer on `device_id`.
    pub fn create_command_buffer(&mut self, device_id: Id) -> (r: Option<Id>)
        requires
            old(self).wf(),
        ensures
            final(self).wf(),
            final(self).hub == old(self).hub,
            final(self).devices == old(self).devices,
            r is None <==> old(self).command_buffers.slots@.len() >= u32::MAX - 1,
            r is Some ==> final(self).command_buffers.lookup(r->0) is Some
                && final(self).command_buffers.lookup(r->0)->0.device_id == device_id
                && final(self).command_buffers.lookup(r->0)->0.passes@.len() == 0
                && final(self).command_buffers.lookup(r->0)->0.used_swap_chain is None,
    {
        if self.command_buffers.slots.len() >= u32::MAX as usize - 1 {
            return None;
        }
        let cmb = CommandBuffer {
            device_id,
            trackers: TrackerSet::new(BUFFER_WRITE_USES, TEXTURE_WRITE_USES),
            used_swap_chain: None,
            swap_chain_framebuffers: Vec::new(),
            passes: Vec::new(),
        };
        Some(self.command_buffers.insert(cmb))
    }

    /// Runs the pass recorded in `raw_data` into command buffer `encoder_id`: reads its
    /// attachments and checks them, finds or creates its backend pass and framebuffer,
    /// checks every command in order while recording its backend operations, and at
    /// the end settles the use of each attachment. On success the recording joins the
    /// command buffer; on any failure the command buffer is discarded.
    pub fn command_encoder_run_render_pass(&mut self, encoder_id: Id, raw_data: &[u8]) -> (r: Result<(), RenderPassError>)
        requires
            old(self).wf(),
        ensures
            match old(self).command_buffers.lookup(encoder_id) {
                None => r == Err::<(), RenderPassError>(RenderPassError::InvalidCommandBuffer { id: encoder_id }),
                Some(cmb) => match old(self).devices.lookup(cmb.device_id) {
                    None => r == Err::<(), RenderPassError>(RenderPassError::InvalidDevice { id: cmb.device_id }),
                    Some(device) => exists|rec: Result<PassRecording, RenderPassError>, device_after: Device|
                        #[trigger] pass_contract(old(self).hub, device, cmb, raw_data@, rec, device_after)
                        && final(self).devices.lookup(cmb.device_id) == Some(device_after)
                        && (rec is Err ==> r == Err::<(), RenderPassError>(rec->Err_0))
                        && (rec is Ok ==> r is Ok
                            && final(self).command_buffers.lookup(encoder_id) is Some
                            && final(self).command_buffers.lookup(encoder_id)->0.passes@ == cmb.passes@.push(rec->Ok_0)),
                },
            },
            final(self).wf(),
            final(self).hub == old(self).hub,
            old(self).command_buffers.lookup(encoder_id) is None ==> r == Err::<(), RenderPassError>(RenderPassError::InvalidCommandBuffer { id: encoder_id }),
            old(self).command_buffers.lookup(encoder_id) is Some && old(self).devices.lookup(old(self).command_buffers.lookup(encoder_id)->0.device_id) is Some
                && parse_targets(raw_data@) is Err
                ==> r == Err::<(), RenderPassError>(RenderPassError::Framing(parse_targets(raw_data@)->Err_0)),
            r is Err ==> final(self).command_buffers.lookup(encoder_id) is None,
            r is Ok ==> {
                let cmb = old(self).command_buffers.lookup(encoder_id)->0;
                let device = old(self).devices.lookup(cmb.device_id)->0;
                let (colors, ds) = parse_targets(raw_data@)->Ok_0;
                let after = final(self).command_buffers.lookup(encoder_id)->0;
                &&& old(self).command_buffers.lookup(encoder_id) is Some
                &&& old(self).devices.lookup(cmb.device_id) is Some
                &&& parse_targets(raw_data@) is Ok
                &&& parse_commands(raw_data@.skip(TARGETS_SIZE as int), TARGETS_SIZE) is Ok
                &&& final(self).command_buffers.lookup(encoder_id) is Some
                &&& after.passes@.len() == cmb.passes@.len() + 1
                &&& after.passes@.drop_last() == cmb.passes@
                &&& setup_matches(colors, ds, old(self).hub.views, cmb.trackers.textures, cmb.used_swap_chain, device.sample_count_mask, after.passes@.last().setup)
                &&& final(self).devices.lookup(cmb.device_id) is Some
                &&& cached_pass(final(self).devices.lookup(cmb.device_id)->0.cache.render_passes@, after.passes@.last().setup.rp_key)
                    == Some(after.passes@.last().render_pass)
                &&& (after.passes@.last().setup.swap_chain is None ==> cached_framebuffer(
                    final(self).devices.lookup(cmb.device_id)->0.cache.framebuffers@,
                    after.passes@.last().setup.fb_key,
                ) == Some(after.passes@.last().framebuffer))
            },
    {
        let mut cmb = match self.command_buffers.take(encoder_id) {
            Some(c) => c,
            None => {
                return Err(RenderPassError::InvalidCommandBuffer { id: encoder_id });
            },
        };
        let device_id = cmb.device_id;
        let ghost dev_slots = self.devices.slots@;
        let mut device = match self.devices.take(device_id) {
            Some(d) => d,
            None => {
                return Err(RenderPassError::InvalidDevice { id: device_id });
            },
        };
        proof {
            assert(dev_slots[device_id.index as int].value is Some);
        }
        let ghost cmb0 = cmb;
        let ghost dev0 = device;
        let result = run_pass(&self.hub, &mut device, &mut cmb, raw_data);
        let ghost dev1 = device;
        proof {
            assert(pass_contract(self.hub, dev0, cmb0, raw_data@, result, dev1));
        }
        self.devices.put(device_id, device);
        proof {
            assert forall|i: int| 0 <= i < self.devices.slots@.len() && (#[trigger] self.devices.slots@[i]).value is Some implies self.devices.slots@[i].value->0.cache.wf() by {
                if i != device_id.index {
                    assert(self.devices.slots@[i] == dev_slots[i]);
                }
            }
        }
        match result {
            Ok(rec) => {
                cmb.passes.push(rec);
                self.command_buffers.put(encoder_id, cmb);
                Ok(())
            },
            Err(e) => Err(e),
        }
    }
}


/// A recorded pass, as `RawPass` writes it, is read and run as recorded: its header
/// gives its attachments, and the runner runs exactly the appended records, each once
/// and in order, with no framing error; empty and 255-element trailers included.
pub proof fn lemma_runner_runs_appended_records(
    colors: Seq<ColorAttachmentDescriptor>,
    ds: Option<DepthStencilAttachmentDescriptor>,
    items: Seq<(RenderCommand, Seq<u8>)>,
    v: RunView,
    hub: Hub,
)
    requires
        colors.len() <= 4,
        forall|i: int| 0 <= i < items.len() ==> record_wf(#[trigger] items[i].0, items[i].1),
    ensures
        parse_targets(targets_bytes(colors, ds) + stream_bytes(items)) == Ok::<
            (Seq<ColorAttachmentDescriptor>, Option<DepthStencilAttachmentDescriptor>),
            crate::codec::FramingError,
        >((colors, ds)),
        run_stream(v, hub, (targets_bytes(colors, ds) + stream_bytes(items)).skip(TARGETS_SIZE as int), TARGETS_SIZE)
            == run_records(v, hub, items),
{
    lemma_pass_round_trip(colors, ds, items);
    lemma_run_stream_records(v, hub, (targets_bytes(colors, ds) + stream_bytes(items)).skip(TARGETS_SIZE as int), TARGETS_SIZE);
}

/// Push, Pop, Pop from no open group fails on the second Pop, whatever the labels.
pub proof fn lemma_push_pop_pop(v: RunView, hub: Hub, color: u32, label: Seq<u8>)
    requires
        v.depth == 0,
        label.len() <= u32::MAX,
    ensures
        run_records(v, hub, seq![
            (RenderCommand::PushDebugGroup { color, len: label.len() as u32 }, label),
            (RenderCommand::PopDebugGroup, Seq::<u8>::empty()),
            (RenderCommand::PopDebugGroup, Seq::<u8>::empty()),
        ]) == Err::<RunView, RenderPassError>(RenderPassError::DebugGroupUnderflow),
{
    let items = seq![
        (RenderCommand::PushDebugGroup { color, len: label.len() as u32 }, label),
        (RenderCommand::PopDebugGroup, Seq::<u8>::empty()),
        (RenderCommand::PopDebugGroup, Seq::<u8>::empty()),
    ];
    reveal_with_fuel(run_records, 4);
    assert(items.drop_first() =~= seq![(RenderCommand::PopDebugGroup, Seq::<u8>::empty()), (RenderCommand::PopDebugGroup, Seq::<u8>::empty())]);
    assert(items.drop_first().drop_first() =~= seq![(RenderCommand::PopDebugGroup, Seq::<u8>::empty())]);
    assert(items.drop_first().drop_first().drop_first() =~= Seq::<(RenderCommand, Seq<u8>)>::empty());
}

/// A pass whose backend pass and framebuffer are both cached creates nothing and leaves
/// the cache as it was; a pass whose backend pass is not cached adds exactly that one
/// entry under a fresh handle, keeping every other.
pub proof fn lemma_runner_cache(old: PassCache, new: PassCache, s: PassSetup)
    requires
        cache_moves(old, new, s),
    ensures
        cached_pass(old.render_passes@, s.rp_key) is Some && s.swap_chain is None
            && cached_framebuffer(old.framebuffers@, s.fb_key) is Some ==> new == old
            && !opening_ops(old, s).contains(OpView::CreateRenderPass { handle: pass_handle(old, s).0 })
            && opening_ops(old, s) == seq![OpView::BeginRenderPass { render_pass: pass_handle(old, s).0, framebuffer: framebuffer_handle(old, s).0, extent: s.extent }],
        cached_pass(old.render_passes@, s.rp_key) is None ==> exists|k: RenderPassKey|
            rp_key_view(k) == rp_key_view(s.rp_key) && #[trigger] new.render_passes@.contains((k, old.next_handle))
            && new.render_passes@.len() == old.render_passes@.len() + 1,
{
    let (mid, k, c) = choose|mid: PassCache, k: RenderPassKey, c: bool|
        rp_key_view(k) == rp_key_view(s.rp_key) && #[trigger] pass_lookup_or_insert(old, k, mid, pass_handle(old, s).0, c)
        && if s.swap_chain is None {
            exists|k2: FramebufferKey, c2: bool| fb_key_view(k2) == fb_key_view(s.fb_key)
                && #[trigger] framebuffer_lookup_or_insert(mid, k2, new, framebuffer_handle(old, s).0, c2)
        } else {
            new.render_passes == mid.render_passes && new.framebuffers == mid.framebuffers
                && new.next_handle == mid.next_handle + 1
        };
    assert(cached_pass(old.render_passes@, k) == cached_pass(old.render_passes@, s.rp_key));
    if s.swap_chain is None {
        let (k2, c2) = choose|k2: FramebufferKey, c2: bool| fb_key_view(k2) == fb_key_view(s.fb_key)
            && #[trigger] framebuffer_lookup_or_insert(mid, k2, new, framebuffer_handle(old, s).0, c2);
        if cached_pass(old.render_passes@, s.rp_key) is Some {
            assert(mid == old);
            assert(cached_framebuffer(mid.framebuffers@, k2) == cached_framebuffer(old.framebuffers@, s.fb_key));
            if cached_framebuffer(old.framebuffers@, s.fb_key) is Some {
                assert(opening_ops(old, s) =~= seq![OpView::BeginRenderPass { render_pass: pass_handle(old, s).0, framebuffer: framebuffer_handle(old, s).0, extent: s.extent }]);
            }
        } else {
            let n = old.render_passes@.len() as int;
            assert(mid.render_passes@[n] == (k, old.next_handle));
            assert(new.render_passes == mid.render_passes);
            assert(new.render_passes@[n] == (k, old.next_handle));
            assert(new.render_passes@.contains((k, old.next_handle)));
        }
    } else if cached_pass(old.render_passes@, s.rp_key) is None {
        let n = old.render_passes@.len() as int;
        assert(new.render_passes@[n] == (k, old.next_handle));
        assert(new.render_passes@.contains((k, old.next_handle)));
    }
}

} // verus!
