//! Checking the attachments of a render pass and deriving the keys under which its
//! backend pass and framebuffer are cached.
use vstd::prelude::*;
use crate::resources::{
    Aspects, Storage, TextureView, ViewSource, TEXTURE_USE_ATTACHMENT_READ,
    TEXTURE_USE_ATTACHMENT_WRITE, TEXTURE_USE_SAMPLED,
};
use crate::tracker::UsageTracker;
use crate::types::{
    ColorAttachmentDescriptor, DepthStencilAttachmentDescriptor, Extent3d, Id, LoadOp,
    RenderPassDescriptor, StoreOp, TextureFormat, MAX_COLOR_TARGETS,
};

verus! {

/// Why the attachments of a pass were refused.
#[derive(PartialEq, Eq, Structural, Clone, Copy, Debug)]
pub enum PassError {
    TooManyColorAttachments,
    NoAttachments,
    InvalidView { id: Id },
    UnsupportedSampleCount { samples: u32 },
    ExtentMismatch { id: Id },
    SampleCountMismatch { id: Id },
    ResolveMultisampled { id: Id },
    ResolveSourceNotMultisampled,
    SwapChainDepthStencil,
    SwapChainMismatch { id: Id },
    MultipleSwapChainImages,
    ClearReadOnlyDepth,
    ClearReadOnlyStencil,
}

/// How a depth-stencil attachment may be used. Each aspect the view has is checked on
/// its own: one requested read-only must be loaded and stored, never cleared. The
/// attachment is read-only when every aspect the view has is requested read-only.
pub open spec fn ds_read_only(
    desc: DepthStencilAttachmentDescriptor,
    aspects: Aspects,
) -> Result<bool, PassError> {
    if aspects.depth && desc.depth_read_only && (desc.depth_load_op != LoadOp::Load
        || desc.depth_store_op != StoreOp::Store) {
        Err(PassError::ClearReadOnlyDepth)
    } else if aspects.stencil && desc.stencil_read_only && (desc.stencil_load_op != LoadOp::Load
        || desc.stencil_store_op != StoreOp::Store) {
        Err(PassError::ClearReadOnlyStencil)
    } else {
        Ok((!aspects.depth || desc.depth_read_only) && (!aspects.stencil || desc.stencil_read_only))
    }
}

/// Whether the depth-stencil attachment is used read-only; refuses one that asks to
/// clear an aspect it also promises not to write.
pub fn is_depth_stencil_read_only(
    desc: &DepthStencilAttachmentDescriptor,
    aspects: Aspects,
) -> (r: Result<bool, PassError>)
    ensures
        r == ds_read_only(*desc, aspects),
{
    if aspects.depth && desc.depth_read_only && (desc.depth_load_op != LoadOp::Load
        || desc.depth_store_op != StoreOp::Store) {
        return Err(PassError::ClearReadOnlyDepth);
    }
    if aspects.stencil && desc.stencil_read_only && (desc.stencil_load_op != LoadOp::Load
        || desc.stencil_store_op != StoreOp::Store) {
        return Err(PassError::ClearReadOnlyStencil);
    }
    Ok((!aspects.depth || desc.depth_read_only) && (!aspects.stencil || desc.stencil_read_only))
}

/// The layout of an image in a backend pass.
#[derive(PartialEq, Eq, Structural, Clone, Copy, Debug, Hash)]
pub enum Layout {
    Undefined,
    General,
    ColorAttachmentOptimal,
    DepthStencilAttachmentOptimal,
    DepthStencilReadOnlyOptimal,
    ShaderReadOnlyOptimal,
    Present,
}

/// What a backend pass does with an attachment's content when it starts.
#[derive(PartialEq, Eq, Structural, Clone, Copy, Debug, Hash)]
pub enum AttachmentLoadOp {
    Load,
    Clear,
    DontCare,
}

/// What a backend pass does with an attachment's content when it ends.
#[derive(PartialEq, Eq, Structural, Clone, Copy, Debug, Hash)]
pub enum AttachmentStoreOp {
    Store,
    DontCare,
}

/// One attachment of a backend pass: everything that decides whether two passes can
/// share one backend object.
#[derive(PartialEq, Eq, Structural, Clone, Copy, Debug, Hash)]
pub struct AttachmentKey {
    pub format: TextureFormat,
    pub samples: u32,
    pub load: AttachmentLoadOp,
    pub store: AttachmentStoreOp,
    pub stencil_load: AttachmentLoadOp,
    pub stencil_store: AttachmentStoreOp,
    pub old_layout: Layout,
    pub new_layout: Layout,
}

/// The attachments of a backend pass.
#[derive(Clone, Debug)]
pub struct RenderPassKey {
    pub colors: Vec<AttachmentKey>,
    pub resolves: Vec<AttachmentKey>,
    pub depth_stencil: Option<AttachmentKey>,
}

/// The images a framebuffer binds.
#[derive(Clone, Debug)]
pub struct FramebufferKey {
    pub colors: Vec<Id>,
    pub resolves: Vec<Id>,
    pub depth_stencil: Option<Id>,
}

pub open spec fn rp_key_view(k: RenderPassKey) -> (
    Seq<AttachmentKey>,
    Seq<AttachmentKey>,
    Option<AttachmentKey>,
) {
    (k.colors@, k.resolves@, k.depth_stencil)
}

pub open spec fn fb_key_view(k: FramebufferKey) -> (Seq<Id>, Seq<Id>, Option<Id>) {
    (k.colors@, k.resolves@, k.depth_stencil)
}

pub open spec fn map_load(op: LoadOp) -> AttachmentLoadOp {
    match op {
        LoadOp::Clear => AttachmentLoadOp::Clear,
        LoadOp::Load => AttachmentLoadOp::Load,
    }
}

pub open spec fn map_store(op: StoreOp) -> AttachmentStoreOp {
    match op {
        StoreOp::Clear => AttachmentStoreOp::DontCare,
        StoreOp::Store => AttachmentStoreOp::Store,
    }
}

fn load_op_of(op: LoadOp) -> (r: AttachmentLoadOp)
    ensures
        r == map_load(op),
{
    match op {
        LoadOp::Clear => AttachmentLoadOp::Clear,
        LoadOp::Load => AttachmentLoadOp::Load,
    }
}

fn store_op_of(op: StoreOp) -> (r: AttachmentStoreOp)
    ensures
        r == map_store(op),
{
    match op {
        StoreOp::Clear => AttachmentStoreOp::DontCare,
        StoreOp::Store => AttachmentStoreOp::Store,
    }
}

/// The layout an image of these aspects is in while it has `usage`.
pub open spec fn layout_for(usage: u32, aspects: Aspects) -> Layout {
    if usage == TEXTURE_USE_ATTACHMENT_WRITE {
        if aspects.color {
            Layout::ColorAttachmentOptimal
        } else {
            Layout::DepthStencilAttachmentOptimal
        }
    } else if usage == TEXTURE_USE_ATTACHMENT_READ {
        Layout::DepthStencilReadOnlyOptimal
    } else if usage == TEXTURE_USE_SAMPLED {
        Layout::ShaderReadOnlyOptimal
    } else {
        Layout::General
    }
}

pub fn map_texture_state(usage: u32, aspects: Aspects) -> (r: Layout)
    ensures
        r == layout_for(usage, aspects),
{
    if usage == TEXTURE_USE_ATTACHMENT_WRITE {
        if aspects.color {
            Layout::ColorAttachmentOptimal
        } else {
            Layout::DepthStencilAttachmentOptimal
        }
    } else if usage == TEXTURE_USE_ATTACHMENT_READ {
        Layout::DepthStencilReadOnlyOptimal
    } else if usage == TEXTURE_USE_SAMPLED {
        Layout::ShaderReadOnlyOptimal
    } else {
        Layout::General
    }
}

/// The layouts a texture attachment moves between in the pass: from the one of its
/// previous use (or straight into the new one if it had none) to the one of `new_use`.
pub open spec fn native_layouts(previous: Option<u32>, new_use: u32, aspects: Aspects) -> (
    Layout,
    Layout,
) {
    let new_layout = layout_for(new_use, aspects);
    match previous {
        Some(u) => (layout_for(u, aspects), new_layout),
        None => (new_layout, new_layout),
    }
}

/// The layouts a swap chain image moves between: a cleared image need not keep its
/// content, a loaded one is taken from and returned to the presentable layout.
pub open spec fn swap_chain_layouts(load: LoadOp) -> (Layout, Layout) {
    match load {
        LoadOp::Clear => (Layout::Undefined, Layout::Present),
        LoadOp::Load => (Layout::Present, Layout::Present),
    }
}

/// A texture attachment whose use the pass changes: consumed once, when the pass ends.
#[derive(PartialEq, Eq, Structural, Clone, Copy, Debug)]
pub struct OutputAttachment {
    pub texture_id: Id,
    pub aspects: Aspects,
    pub previous_use: Option<u32>,
    pub new_use: u32,
}


pub open spec fn color_aspects() -> Aspects {
    Aspects { color: true, depth: false, stencil: false }
}

/// The view an attachment handle resolves to (meaningful where it resolves).
pub open spec fn view_of(views: Storage<TextureView>, id: Id) -> TextureView {
    views.lookup(id)->0
}

/// The backend attachment of a color attachment shown by view `v`.
pub open spec fn color_key(c: ColorAttachmentDescriptor, v: TextureView, base: UsageTracker) -> AttachmentKey {
    let layouts = match v.source {
        ViewSource::Native { texture_id } => native_layouts(
            base.usage(texture_id),
            TEXTURE_USE_ATTACHMENT_WRITE,
            color_aspects(),
        ),
        ViewSource::SwapChain { .. } => swap_chain_layouts(c.load_op),
    };
    AttachmentKey {
        format: v.format,
        samples: v.samples,
        load: map_load(c.load_op),
        store: map_store(c.store_op),
        stencil_load: AttachmentLoadOp::DontCare,
        stencil_store: AttachmentStoreOp::DontCare,
        old_layout: layouts.0,
        new_layout: layouts.1,
    }
}

/// The backend attachment of a resolve target shown by view `v`.
pub open spec fn resolve_key(v: TextureView, base: UsageTracker) -> AttachmentKey {
    let layouts = match v.source {
        ViewSource::Native { texture_id } => native_layouts(
            base.usage(texture_id),
            TEXTURE_USE_ATTACHMENT_WRITE,
            color_aspects(),
        ),
        ViewSource::SwapChain { .. } => (Layout::Undefined, Layout::Present),
    };
    AttachmentKey {
        format: v.format,
        samples: v.samples,
        load: AttachmentLoadOp::DontCare,
        store: AttachmentStoreOp::Store,
        stencil_load: AttachmentLoadOp::DontCare,
        stencil_store: AttachmentStoreOp::DontCare,
        old_layout: layouts.0,
        new_layout: layouts.1,
    }
}

/// The use a depth-stencil attachment gets in the pass.
pub open spec fn ds_use(read_only: bool) -> u32 {
    if read_only {
        TEXTURE_USE_ATTACHMENT_READ
    } else {
        TEXTURE_USE_ATTACHMENT_WRITE
    }
}

/// The backend attachment of the depth-stencil attachment, shown by the texture view
/// `v` of texture `t`.
pub open spec fn ds_key(
    d: DepthStencilAttachmentDescriptor,
    v: TextureView,
    t: Id,
    base: UsageTracker,
    read_only: bool,
) -> AttachmentKey {
    let layouts = native_layouts(base.usage(t), ds_use(read_only), v.aspects);
    AttachmentKey {
        format: v.format,
        samples: v.samples,
        load: map_load(d.depth_load_op),
        store: map_store(d.depth_store_op),
        stencil_load: map_load(d.stencil_load_op),
        stencil_store: map_store(d.stencil_store_op),
        old_layout: layouts.0,
        new_layout: layouts.1,
    }
}

/// The resolve targets of the color attachments, in order.
pub open spec fn resolve_ids(colors: Seq<ColorAttachmentDescriptor>) -> Seq<Id>
    decreases colors.len(),
{
    if colors.len() == 0 {
        Seq::empty()
    } else {
        let rest = resolve_ids(colors.drop_last());
        match colors.last().resolve_target {
            Some(r) => rest.push(r),
            None => rest,
        }
    }
}

/// Every attachment of the pass: the depth-stencil one, the colors, then the resolve
/// targets.
pub open spec fn attachment_ids(desc: RenderPassDescriptor) -> Seq<Id> {
    let ds = match desc.depth_stencil_attachment {
        Some(d) => seq![d.attachment],
        None => Seq::empty(),
    };
    ds + color_ids(desc.color_attachments@) + resolve_ids(desc.color_attachments@)
}

/// The output attachment of a view, where it shows a texture rather than a swap chain.
pub open spec fn output_of(v: TextureView, new_use: u32, aspects: Aspects, base: UsageTracker) -> Seq<OutputAttachment> {
    match v.source {
        ViewSource::Native { texture_id } => seq![
            OutputAttachment {
                texture_id,
                aspects,
                previous_use: base.usage(texture_id),
                new_use,
            },
        ],
        ViewSource::SwapChain { .. } => Seq::empty(),
    }
}

/// The output attachments of the views of `ids`, as color-aspect attachments written
/// by the pass.
pub open spec fn color_outputs(views: Storage<TextureView>, ids: Seq<Id>, base: UsageTracker) -> Seq<OutputAttachment>
    decreases ids.len(),
{
    if ids.len() == 0 {
        Seq::empty()
    } else {
        color_outputs(views, ids.drop_last(), base) + output_of(
            view_of(views, ids.last()),
            TEXTURE_USE_ATTACHMENT_WRITE,
            color_aspects(),
            base,
        )
    }
}

/// The swap chains whose images the views of `ids` show, in order.
pub open spec fn swap_chains(views: Storage<TextureView>, ids: Seq<Id>) -> Seq<Id>
    decreases ids.len(),
{
    if ids.len() == 0 {
        Seq::empty()
    } else {
        let rest = swap_chains(views, ids.drop_last());
        match view_of(views, ids.last()).source {
            ViewSource::SwapChain { swap_chain_id } => rest.push(swap_chain_id),
            ViewSource::Native { .. } => rest,
        }
    }
}

/// What checking the attachments of a pass gives.
#[derive(Clone, Debug)]
pub struct PassSetup {
    pub rp_key: RenderPassKey,
    pub fb_key: FramebufferKey,
    pub is_ds_read_only: bool,
    pub output_attachments: Vec<OutputAttachment>,
    pub extent: Extent3d,
    pub color_formats: Vec<TextureFormat>,
    pub resolve_formats: Vec<TextureFormat>,
    pub depth_stencil_format: Option<TextureFormat>,
    pub sample_count: u32,
    /// The swap chain whose image the pass draws into, if any.
    pub swap_chain: Option<Id>,
}


/// A color attachment that resolves, has the pass's extent and its sample count.
pub open spec fn color_ok(views: Storage<TextureView>, id: Id, extent: Extent3d, samples: u32) -> bool {
    &&& views.lookup(id) is Some
    &&& view_of(views, id).extent == extent
    &&& view_of(views, id).samples == samples
}

/// A resolve target that resolves, has the pass's extent and is single-sampled.
pub open spec fn resolve_ok(views: Storage<TextureView>, id: Id, extent: Extent3d) -> bool {
    &&& views.lookup(id) is Some
    &&& view_of(views, id).extent == extent
    &&& view_of(views, id).samples == 1
}

/// The output attachment of the depth-stencil attachment, if the pass has one.
pub open spec fn ds_outputs(
    views: Storage<TextureView>,
    ds: Option<DepthStencilAttachmentDescriptor>,
    base: UsageTracker,
    read_only: bool,
) -> Seq<OutputAttachment> {
    match ds {
        Some(d) => output_of(view_of(views, d.attachment), ds_use(read_only), view_of(views, d.attachment).aspects, base),
        None => Seq::empty(),
    }
}

/// The color attachment handles of the pass.
pub open spec fn color_ids(colors: Seq<ColorAttachmentDescriptor>) -> Seq<Id> {
    colors.map_values(|c: ColorAttachmentDescriptor| c.attachment)
}

/// The sample count of the pass: that of its first color attachment, else one.
pub open spec fn pass_samples(views: Storage<TextureView>, colors: Seq<ColorAttachmentDescriptor>) -> u32 {
    if colors.len() > 0 {
        view_of(views, colors[0].attachment).samples
    } else {
        1
    }
}

fn view_at(views: &Storage<TextureView>, id: Id) -> (r: Result<TextureView, PassError>)
    ensures
        match views.lookup(id) {
            Some(v) => r == Ok::<TextureView, PassError>(v),
            None => r == Err::<TextureView, PassError>(PassError::InvalidView { id }),
        },
{
    match views.get(id) {
        Some(v) => Ok(*v),
        None => Err(PassError::InvalidView { id }),
    }
}

/// Notes the swap chain a view shows, if any: every swap chain image of a pass must
/// be the one of the command buffer (where it has one) and all the same.
fn claim_swap_chain(v: &TextureView, used: &mut Option<Id>, cmb_swap_chain: Option<Id>) -> (r: Result<(), PassError>)
    ensures
        match v.source {
            ViewSource::Native { .. } => r is Ok && *final(used) == *old(used),
            ViewSource::SwapChain { swap_chain_id } => {
                if cmb_swap_chain is Some && cmb_swap_chain != Some(swap_chain_id) {
                    r == Err::<(), PassError>(PassError::SwapChainMismatch { id: swap_chain_id })
                } else if (*old(used)) is Some && *old(used) != Some(swap_chain_id) {
                    r == Err::<(), PassError>(PassError::MultipleSwapChainImages)
                } else {
                    r is Ok && *final(used) == Some(swap_chain_id)
                }
            },
        },
{
    match v.source {
        ViewSource::Native { .. } => Ok(()),
        ViewSource::SwapChain { swap_chain_id } => {
            match cmb_swap_chain {
                Some(s) => {
                    if s != swap_chain_id {
                        return Err(PassError::SwapChainMismatch { id: swap_chain_id });
                    }
                },
                None => {},
            }
            match *used {
                Some(u) => {
                    if u != swap_chain_id {
                        return Err(PassError::MultipleSwapChainImages);
                    }
                },
                None => {},
            }
            *used = Some(swap_chain_id);
            Ok(())
        },
    }
}

fn output_for(v: &TextureView, new_use: u32, aspects: Aspects, base: &UsageTracker, out: &mut Vec<OutputAttachment>)
    ensures
        final(out)@ == old(out)@ + output_of(*v, new_use, aspects, *base),
{
    match v.source {
        ViewSource::Native { texture_id } => {
            let previous_use = base.query(texture_id);
            out.push(OutputAttachment { texture_id, aspects, previous_use, new_use });
            assert(out@ =~= old(out)@ + output_of(*v, new_use, aspects, *base));
        },
        ViewSource::SwapChain { .. } => {
            assert(out@ =~= old(out)@ + output_of(*v, new_use, aspects, *base));
        },
    }
}

fn layouts_of(previous: Option<u32>, new_use: u32, aspects: Aspects) -> (r: (Layout, Layout))
    ensures
        r == native_layouts(previous, new_use, aspects),
{
    let new_layout = map_texture_state(new_use, aspects);
    match previous {
        Some(u) => (map_texture_state(u, aspects), new_layout),
        None => (new_layout, new_layout),
    }
}

fn color_key_of(c: &ColorAttachmentDescriptor, v: &TextureView, base: &UsageTracker) -> (r: AttachmentKey)
    ensures
        r == color_key(*c, *v, *base),
{
    let layouts = match v.source {
        ViewSource::Native { texture_id } => layouts_of(
            base.query(texture_id),
            TEXTURE_USE_ATTACHMENT_WRITE,
            Aspects { color: true, depth: false, stencil: false },
        ),
        ViewSource::SwapChain { .. } => match c.load_op {
            LoadOp::Clear => (Layout::Undefined, Layout::Present),
            LoadOp::Load => (Layout::Present, Layout::Present),
        },
    };
    AttachmentKey {
        format: v.format,
        samples: v.samples,
        load: load_op_of(c.load_op),
        store: store_op_of(c.store_op),
        stencil_load: AttachmentLoadOp::DontCare,
        stencil_store: AttachmentStoreOp::DontCare,
        old_layout: layouts.0,
        new_layout: layouts.1,
    }
}

fn resolve_key_of(v: &TextureView, base: &UsageTracker) -> (r: AttachmentKey)
    ensures
        r == resolve_key(*v, *base),
{
    let layouts = match v.source {
        ViewSource::Native { texture_id } => layouts_of(
            base.query(texture_id),
            TEXTURE_USE_ATTACHMENT_WRITE,
            Aspects { color: true, depth: false, stencil: false },
        ),
        ViewSource::SwapChain { .. } => (Layout::Undefined, Layout::Present),
    };
    AttachmentKey {
        format: v.format,
        samples: v.samples,
        load: AttachmentLoadOp::DontCare,
        store: AttachmentStoreOp::Store,
        stencil_load: AttachmentLoadOp::DontCare,
        stencil_store: AttachmentStoreOp::DontCare,
        old_layout: layouts.0,
        new_layout: layouts.1,
    }
}


/// Whether all swap chain images in `scs` are of one swap chain, and of the command
/// buffer's one where it has one; `used` is that swap chain, if any.
pub open spec fn swap_chains_agree(scs: Seq<Id>, used: Option<Id>, cmb_swap_chain: Option<Id>) -> bool {
    &&& (used is None <==> scs.len() == 0)
    &&& forall|k: int| 0 <= k < scs.len() ==> Some(#[trigger] scs[k]) == used
    &&& (cmb_swap_chain is Some && used is Some ==> used == cmb_swap_chain)
}

proof fn lemma_ids_step(views: Storage<TextureView>, ids: Seq<Id>, id: Id, base: UsageTracker)
    ensures
        swap_chains(views, ids.push(id)) == match view_of(views, id).source {
            ViewSource::SwapChain { swap_chain_id } => swap_chains(views, ids).push(swap_chain_id),
            ViewSource::Native { .. } => swap_chains(views, ids),
        },
        color_outputs(views, ids.push(id), base) == color_outputs(views, ids, base) + output_of(
            view_of(views, id),
            TEXTURE_USE_ATTACHMENT_WRITE,
            color_aspects(),
            base,
        ),
{
    assert(ids.push(id).drop_last() =~= ids);
}

proof fn lemma_resolve_ids_step(colors: Seq<ColorAttachmentDescriptor>, i: int)
    requires
        0 <= i < colors.len(),
    ensures
        resolve_ids(colors.take(i + 1)) == match colors[i].resolve_target {
            Some(r) => resolve_ids(colors.take(i)).push(r),
            None => resolve_ids(colors.take(i)),
        },
{
    assert(colors.take(i + 1).drop_last() =~= colors.take(i));
}


/// Whether the view of `id` shows an image of swap chain `sc`.
pub open spec fn shows_swap_chain(views: Storage<TextureView>, id: Id, sc: Id) -> bool {
    views.lookup(id) is Some && view_of(views, id).source == (ViewSource::SwapChain { swap_chain_id: sc })
}

/// The attachment keys, handles, formats, outputs and swap chain gathered so far.
struct Gathered {
    keys: Vec<AttachmentKey>,
    ids: Vec<Id>,
    formats: Vec<TextureFormat>,
    outputs: Vec<OutputAttachment>,
    used: Option<Id>,
}

/// Checks and gathers the color attachments.
fn add_colors(
    colors: &Vec<ColorAttachmentDescriptor>,
    views: &Storage<TextureView>,
    base: &UsageTracker,
    cmb_swap_chain: Option<Id>,
    extent: Extent3d,
    sample_count: u32,
    g: &mut Gathered,
) -> (r: Result<(), PassError>)
    requires
        old(g).keys@.len() == 0,
        old(g).ids@.len() == 0,
        old(g).formats@.len() == 0,
        old(g).used is None,
    ensures
        r is Ok ==> {
            &&& forall|i: int| 0 <= i < colors@.len() ==> color_ok(*views, #[trigger] colors@[i].attachment, extent, sample_count)
            &&& final(g).keys@ == Seq::new(colors@.len(), |i: int| color_key(colors@[i], view_of(*views, colors@[i].attachment), *base))
            &&& final(g).ids@ == color_ids(colors@)
            &&& final(g).formats@ == Seq::new(colors@.len(), |i: int| view_of(*views, colors@[i].attachment).format)
            &&& final(g).outputs@ == old(g).outputs@ + color_outputs(*views, color_ids(colors@), *base)
            &&& swap_chains_agree(swap_chains(*views, color_ids(colors@)), final(g).used, cmb_swap_chain)
            &&& (final(g).used is Some ==> exists|k: int| 0 <= k < colors@.len() && shows_swap_chain(*views, #[trigger] colors@[k].attachment, final(g).used->0))
        },
        match r {
            Err(PassError::InvalidView { id }) => exists|i: int| 0 <= i < colors@.len() && #[trigger] colors@[i].attachment == id && views.lookup(id) is None,
            Err(PassError::ExtentMismatch { id }) => exists|i: int| 0 <= i < colors@.len() && #[trigger] colors@[i].attachment == id && views.lookup(id) is Some && view_of(*views, id).extent != extent,
            Err(PassError::SampleCountMismatch { id }) => exists|i: int| 0 <= i < colors@.len() && #[trigger] colors@[i].attachment == id && views.lookup(id) is Some && view_of(*views, id).samples != sample_count,
            Err(PassError::SwapChainMismatch { id }) => cmb_swap_chain is Some && cmb_swap_chain != Some(id) && exists|i: int| 0 <= i < colors@.len() && shows_swap_chain(*views, #[trigger] colors@[i].attachment, id),
            Err(PassError::MultipleSwapChainImages) => exists|i: int, j: int, a: Id, b: Id| 0 <= i < colors@.len() && 0 <= j < colors@.len() && a != b && #[trigger] shows_swap_chain(*views, colors@[i].attachment, a) && #[trigger] shows_swap_chain(*views, colors@[j].attachment, b),
            Err(_) => false,
            Ok(()) => true,
        },
{
    let n = colors.len();
    let mut i: usize = 0;
    while i < n
        invariant
            i <= n,
            n == colors@.len(),
            forall|k: int| 0 <= k < i ==> color_ok(*views, #[trigger] colors@[k].attachment, extent, sample_count),
            g.keys@ == Seq::new(i as nat, |k: int| color_key(colors@[k], view_of(*views, colors@[k].attachment), *base)),
            g.ids@ == color_ids(colors@).take(i as int),
            g.formats@ == Seq::new(i as nat, |k: int| view_of(*views, colors@[k].attachment).format),
            g.outputs@ == old(g).outputs@ + color_outputs(*views, color_ids(colors@).take(i as int), *base),
            swap_chains_agree(swap_chains(*views, color_ids(colors@).take(i as int)), g.used, cmb_swap_chain),
            g.used is Some ==> exists|k: int| 0 <= k < i && shows_swap_chain(*views, #[trigger] colors@[k].attachment, g.used->0),
        decreases n - i,
    {
        let c = colors[i];
        let ghost prefix = color_ids(colors@).take(i as int);
        assert(color_ids(colors@).take(i + 1) =~= prefix.push(c.attachment));
        proof {
            lemma_ids_step(*views, prefix, c.attachment, *base);
        }
        let v = match view_at(views, c.attachment) {
            Ok(v) => v,
            Err(e) => {
                assert(colors@[i as int].attachment == c.attachment);
                return Err(e);
            },
        };
        if v.extent != extent {
            assert(colors@[i as int].attachment == c.attachment);
            return Err(PassError::ExtentMismatch { id: c.attachment });
        }
        if v.samples != sample_count {
            assert(colors@[i as int].attachment == c.attachment);
            return Err(PassError::SampleCountMismatch { id: c.attachment });
        }
        let ghost used_before = g.used;
        match claim_swap_chain(&v, &mut g.used, cmb_swap_chain) {
            Err(e) => {
                proof {
                    assert(colors@[i as int].attachment == c.attachment);
                    if e == PassError::MultipleSwapChainImages {
                        let k = choose|k: int| 0 <= k < i && shows_swap_chain(*views, #[trigger] colors@[k].attachment, used_before->0);
                        assert(shows_swap_chain(*views, colors@[i as int].attachment, v.source->swap_chain_id));
                    }
                }
                return Err(e);
            },
            Ok(()) => {},
        }
        proof {
            if g.used is Some && g.used != used_before {
                assert(shows_swap_chain(*views, colors@[i as int].attachment, g.used->0));
            }
        }
        output_for(&v, TEXTURE_USE_ATTACHMENT_WRITE, Aspects { color: true, depth: false, stencil: false }, base, &mut g.outputs);
        let key = color_key_of(&c, &v, base);
        g.keys.push(key);
        g.ids.push(c.attachment);
        g.formats.push(v.format);
        proof {
            assert(g.keys@ =~= Seq::new((i + 1) as nat, |k: int| color_key(colors@[k], view_of(*views, colors@[k].attachment), *base)));
            assert(g.formats@ =~= Seq::new((i + 1) as nat, |k: int| view_of(*views, colors@[k].attachment).format));
            assert(g.outputs@ =~= old(g).outputs@ + color_outputs(*views, color_ids(colors@).take(i + 1), *base));
        }
        i = i + 1;
    }
    assert(color_ids(colors@).take(n as int) =~= color_ids(colors@));
    Ok(())
}


/// The handles of the color attachments followed by those of the resolve targets.
pub open spec fn target_ids(colors: Seq<ColorAttachmentDescriptor>) -> Seq<Id> {
    color_ids(colors) + resolve_ids(colors)
}

/// Checks and gathers the resolve targets.
fn add_resolves(
    colors: &Vec<ColorAttachmentDescriptor>,
    views: &Storage<TextureView>,
    base: &UsageTracker,
    cmb_swap_chain: Option<Id>,
    extent: Extent3d,
    g: &mut Gathered,
) -> (r: Result<(), PassError>)
    requires
        old(g).keys@.len() == 0,
        old(g).ids@.len() == 0,
        old(g).formats@.len() == 0,
        swap_chains_agree(swap_chains(*views, color_ids(colors@)), old(g).used, cmb_swap_chain),
        old(g).used is Some ==> exists|k: int| 0 <= k < colors@.len() && shows_swap_chain(*views, #[trigger] colors@[k].attachment, old(g).used->0),
    ensures
        r is Ok ==> {
            let rs = resolve_ids(colors@);
            &&& forall|j: int| 0 <= j < rs.len() ==> resolve_ok(*views, #[trigger] rs[j], extent)
            &&& final(g).keys@ == Seq::new(rs.len(), |j: int| resolve_key(view_of(*views, rs[j]), *base))
            &&& final(g).ids@ == rs
            &&& final(g).formats@ == Seq::new(rs.len(), |j: int| view_of(*views, rs[j]).format)
            &&& final(g).outputs@ == old(g).outputs@ + color_outputs(*views, rs, *base)
            &&& swap_chains_agree(swap_chains(*views, color_ids(colors@)) + swap_chains(*views, rs), final(g).used, cmb_swap_chain)
        },
        match r {
            Err(PassError::InvalidView { id }) => exists|j: int| 0 <= j < resolve_ids(colors@).len() && #[trigger] resolve_ids(colors@)[j] == id && views.lookup(id) is None,
            Err(PassError::ExtentMismatch { id }) => exists|j: int| 0 <= j < resolve_ids(colors@).len() && #[trigger] resolve_ids(colors@)[j] == id && views.lookup(id) is Some && view_of(*views, id).extent != extent,
            Err(PassError::ResolveMultisampled { id }) => exists|j: int| 0 <= j < resolve_ids(colors@).len() && #[trigger] resolve_ids(colors@)[j] == id && views.lookup(id) is Some && view_of(*views, id).samples != 1,
            Err(PassError::SwapChainMismatch { id }) => cmb_swap_chain is Some && cmb_swap_chain != Some(id) && exists|j: int| 0 <= j < resolve_ids(colors@).len() && shows_swap_chain(*views, #[trigger] resolve_ids(colors@)[j], id),
            Err(PassError::MultipleSwapChainImages) => exists|i: int, j: int, a: Id, b: Id| 0 <= i < target_ids(colors@).len() && 0 <= j < target_ids(colors@).len() && a != b && #[trigger] shows_swap_chain(*views, target_ids(colors@)[i], a) && #[trigger] shows_swap_chain(*views, target_ids(colors@)[j], b),
            Err(_) => false,
            Ok(()) => true,
        },
{
    let ghost cs = swap_chains(*views, color_ids(colors@));
    let ghost used0 = g.used;
    let n = colors.len();
    let mut i: usize = 0;
    assert(colors@.take(0) =~= Seq::<ColorAttachmentDescriptor>::empty());
    assert(resolve_ids(colors@.take(0)) =~= Seq::<Id>::empty());
    assert(cs + swap_chains(*views, Seq::<Id>::empty()) =~= cs);
    assert(old(g).outputs@ + color_outputs(*views, Seq::<Id>::empty(), *base) =~= old(g).outputs@);
    proof {
        if g.used is Some {
            let k = choose|k: int| 0 <= k < colors@.len() && shows_swap_chain(*views, #[trigger] colors@[k].attachment, g.used->0);
            assert(target_ids(colors@)[k] == colors@[k].attachment);
        }
    }
    while i < n
        invariant
            i <= n,
            n == colors@.len(),
            cs == swap_chains(*views, color_ids(colors@)),
            forall|j: int| 0 <= j < resolve_ids(colors@.take(i as int)).len() ==> resolve_ok(*views, #[trigger] resolve_ids(colors@.take(i as int))[j], extent),
            g.keys@ == Seq::new(resolve_ids(colors@.take(i as int)).len(), |j: int| resolve_key(view_of(*views, resolve_ids(colors@.take(i as int))[j]), *base)),
            g.ids@ == resolve_ids(colors@.take(i as int)),
            g.formats@ == Seq::new(resolve_ids(colors@.take(i as int)).len(), |j: int| view_of(*views, resolve_ids(colors@.take(i as int))[j]).format),
            g.outputs@ == old(g).outputs@ + color_outputs(*views, resolve_ids(colors@.take(i as int)), *base),
            swap_chains_agree(cs + swap_chains(*views, resolve_ids(colors@.take(i as int))), g.used, cmb_swap_chain),
            g.used is Some ==> exists|k: int| 0 <= k < color_ids(colors@).len() + resolve_ids(colors@.take(i as int)).len() && shows_swap_chain(*views, #[trigger] target_ids(colors@)[k], g.used->0),
            resolve_ids(colors@.take(i as int)).len() <= resolve_ids(colors@).len(),
            resolve_ids(colors@.take(i as int)) == resolve_ids(colors@).take(resolve_ids(colors@.take(i as int)).len() as int),
        decreases n - i,
    {
        proof {
            lemma_resolve_ids_step(colors@, i as int);
        }
        let c = colors[i];
        match c.resolve_target {
            None => {},
            Some(rid) => {
                let ghost prefix = resolve_ids(colors@.take(i as int));
                proof {
                    lemma_ids_step(*views, prefix, rid, *base);
                    lemma_resolve_prefix(colors@, i as int);
                }
                let ghost jj = prefix.len() as int;
                assert(resolve_ids(colors@)[jj] == rid);
                assert(target_ids(colors@)[color_ids(colors@).len() + jj] == rid);
                let v = match view_at(views, rid) {
                    Ok(v) => v,
                    Err(e) => {
                        return Err(e);
                    },
                };
                if v.extent != extent {
                    return Err(PassError::ExtentMismatch { id: rid });
                }
                if v.samples != 1 {
                    return Err(PassError::ResolveMultisampled { id: rid });
                }
                let ghost used_before = g.used;
                match claim_swap_chain(&v, &mut g.used, cmb_swap_chain) {
                    Err(e) => {
                        proof {
                            if e == PassError::MultipleSwapChainImages {
                                let k = choose|k: int| 0 <= k < color_ids(colors@).len() + prefix.len() && shows_swap_chain(*views, #[trigger] target_ids(colors@)[k], used_before->0);
                                assert(shows_swap_chain(*views, target_ids(colors@)[color_ids(colors@).len() + jj], v.source->swap_chain_id));
                            }
                        }
                        return Err(e);
                    },
                    Ok(()) => {},
                }
                proof {
                    if g.used is Some && g.used != used_before {
                        assert(shows_swap_chain(*views, target_ids(colors@)[color_ids(colors@).len() + jj], g.used->0));
                    }
                    assert(cs + swap_chains(*views, prefix.push(rid)) =~= match v.source {
                        ViewSource::SwapChain { swap_chain_id } => (cs + swap_chains(*views, prefix)).push(swap_chain_id),
                        ViewSource::Native { .. } => cs + swap_chains(*views, prefix),
                    });
                }
                output_for(&v, TEXTURE_USE_ATTACHMENT_WRITE, Aspects { color: true, depth: false, stencil: false }, base, &mut g.outputs);
                let key = resolve_key_of(&v, base);
                g.keys.push(key);
                g.ids.push(rid);
                g.formats.push(v.format);
                proof {
                    let np = prefix.push(rid);
                    assert(g.keys@ =~= Seq::new(np.len(), |j: int| resolve_key(view_of(*views, np[j]), *base)));
                    assert(g.formats@ =~= Seq::new(np.len(), |j: int| view_of(*views, np[j]).format));
                    assert(g.outputs@ =~= old(g).outputs@ + color_outputs(*views, np, *base));
                    assert(np =~= resolve_ids(colors@).take(np.len() as int));
                }
            },
        }
        i = i + 1;
    }
    assert(colors@.take(n as int) =~= colors@);
    Ok(())
}

proof fn lemma_resolve_prefix(colors: Seq<ColorAttachmentDescriptor>, i: int)
    requires
        0 <= i < colors.len(),
        colors[i].resolve_target is Some,
    ensures
        resolve_ids(colors.take(i)).len() < resolve_ids(colors).len(),
        resolve_ids(colors)[resolve_ids(colors.take(i)).len() as int] == colors[i].resolve_target->0,
    decreases colors.len(),
{
    if i == colors.len() - 1 {
        assert(colors.drop_last() =~= colors.take(i));
    } else {
        assert(colors.drop_last().take(i) =~= colors.take(i));
        lemma_resolve_prefix(colors.drop_last(), i);
    }
}


/// The texture a view shows (meaningful for a view of a texture).
pub open spec fn texture_of(v: TextureView) -> Id {
    v.source->texture_id
}

/// Whether `id` is among the attachments of the pass.
pub open spec fn is_attachment(desc: RenderPassDescriptor, id: Id) -> bool {
    exists|k: int| 0 <= k < attachment_ids(desc).len() && #[trigger] attachment_ids(desc)[k] == id
}

/// What a pass with these attachments is, where they are valid.
pub open spec fn setup_matches(
    colors: Seq<ColorAttachmentDescriptor>,
    depth_stencil: Option<DepthStencilAttachmentDescriptor>,
    views: Storage<TextureView>,
    base: UsageTracker,
    cmb_swap_chain: Option<Id>,
    sample_count_mask: u32,
    s: PassSetup,
) -> bool {
    let rs = resolve_ids(colors);
    &&& colors.len() <= MAX_COLOR_TARGETS
    &&& colors.len() > 0 || depth_stencil is Some
    &&& s.sample_count == pass_samples(views, colors)
    &&& s.sample_count & sample_count_mask != 0
    &&& forall|i: int| 0 <= i < colors.len() ==> color_ok(views, #[trigger] colors[i].attachment, s.extent, s.sample_count)
    &&& forall|j: int| 0 <= j < rs.len() ==> resolve_ok(views, #[trigger] rs[j], s.extent)
    &&& (rs.len() > 0 ==> s.sample_count != 1)
    &&& match depth_stencil {
        Some(d) => {
            let v = view_of(views, d.attachment);
            &&& views.lookup(d.attachment) is Some
            &&& v.extent == s.extent
            &&& v.source is Native
            &&& ds_read_only(d, v.aspects) == Ok::<bool, PassError>(s.is_ds_read_only)
            &&& s.rp_key.depth_stencil == Some(ds_key(d, v, texture_of(v), base, s.is_ds_read_only))
            &&& s.depth_stencil_format == Some(v.format)
        },
        None => !s.is_ds_read_only && s.rp_key.depth_stencil is None && s.depth_stencil_format is None,
    }
    &&& s.rp_key.colors@ == Seq::new(colors.len(), |i: int| color_key(colors[i], view_of(views, colors[i].attachment), base))
    &&& s.rp_key.resolves@ == Seq::new(rs.len(), |j: int| resolve_key(view_of(views, rs[j]), base))
    &&& s.fb_key.colors@ == color_ids(colors)
    &&& s.fb_key.resolves@ == rs
    &&& s.fb_key.depth_stencil == match depth_stencil {
        Some(d) => Some(d.attachment),
        None => None,
    }
    &&& s.color_formats@ == Seq::new(colors.len(), |i: int| view_of(views, colors[i].attachment).format)
    &&& s.resolve_formats@ == Seq::new(rs.len(), |j: int| view_of(views, rs[j]).format)
    &&& s.output_attachments@ == ds_outputs(views, depth_stencil, base, s.is_ds_read_only)
        + color_outputs(views, color_ids(colors), base) + color_outputs(views, rs, base)
    &&& swap_chains_agree(swap_chains(views, color_ids(colors)) + swap_chains(views, rs), s.swap_chain, cmb_swap_chain)
}

/// Everything of a setup that running the pass depends on, as plain values.
pub open spec fn setup_view(s: PassSetup) -> (
    (Seq<AttachmentKey>, Seq<AttachmentKey>, Option<AttachmentKey>),
    (Seq<Id>, Seq<Id>, Option<Id>),
    (Seq<TextureFormat>, Seq<TextureFormat>, Option<TextureFormat>, u32),
    (bool, Seq<OutputAttachment>, Extent3d, Option<Id>),
) {
    (
        rp_key_view(s.rp_key),
        fb_key_view(s.fb_key),
        (s.color_formats@, s.resolve_formats@, s.depth_stencil_format, s.sample_count),
        (s.is_ds_read_only, s.output_attachments@, s.extent, s.swap_chain),
    )
}

/// Passes built from equal attachments, over the same views and prior uses, get equal
/// backend pass keys and equal framebuffer keys, so the cache hands them one object;
/// indeed everything the pass is run with is the same.
pub proof fn lemma_equal_descriptors_equal_keys(
    colors: Seq<ColorAttachmentDescriptor>,
    depth_stencil: Option<DepthStencilAttachmentDescriptor>,
    views: Storage<TextureView>,
    base: UsageTracker,
    cmb_swap_chain: Option<Id>,
    sample_count_mask: u32,
    s1: PassSetup,
    s2: PassSetup,
)
    requires
        setup_matches(colors, depth_stencil, views, base, cmb_swap_chain, sample_count_mask, s1),
        setup_matches(colors, depth_stencil, views, base, cmb_swap_chain, sample_count_mask, s2),
    ensures
        rp_key_view(s1.rp_key) == rp_key_view(s2.rp_key),
        fb_key_view(s1.fb_key) == fb_key_view(s2.fb_key),
        setup_view(s1) == setup_view(s2),
{
    assert(s1.rp_key.colors@ =~= s2.rp_key.colors@);
    assert(s1.rp_key.resolves@ =~= s2.rp_key.resolves@);
    assert(s1.color_formats@ =~= s2.color_formats@);
    assert(s1.resolve_formats@ =~= s2.resolve_formats@);
    if colors.len() > 0 {
        assert(color_ok(views, colors[0].attachment, s1.extent, s1.sample_count));
        assert(color_ok(views, colors[0].attachment, s2.extent, s2.sample_count));
    }
    match depth_stencil {
        Some(d) => {
            assert(ds_read_only(d, view_of(views, d.attachment).aspects) == Ok::<bool, PassError>(s1.is_ds_read_only));
        },
        None => {},
    }
    let scs = swap_chains(views, color_ids(colors)) + swap_chains(views, resolve_ids(colors));
    if scs.len() > 0 {
        assert(Some(scs[0]) == s1.swap_chain);
        assert(Some(scs[0]) == s2.swap_chain);
    }
}

/// Whether some setup matches these attachments: that is, whether they are valid.
pub open spec fn pass_buildable(
    colors: Seq<ColorAttachmentDescriptor>,
    depth_stencil: Option<DepthStencilAttachmentDescriptor>,
    views: Storage<TextureView>,
    base: UsageTracker,
    cmb_swap_chain: Option<Id>,
    sample_count_mask: u32,
) -> bool {
    exists|s: PassSetup| setup_matches(colors, depth_stencil, views, base, cmb_swap_chain, sample_count_mask, s)
}

proof fn lemma_swap_chain_member(views: Storage<TextureView>, ids: Seq<Id>, j: int, x: Id)
    requires
        0 <= j < ids.len(),
        shows_swap_chain(views, ids[j], x),
    ensures
        swap_chains(views, ids).contains(x),
    decreases ids.len(),
{
    if j < ids.len() - 1 {
        assert(ids.drop_last()[j] == ids[j]);
        lemma_swap_chain_member(views, ids.drop_last(), j, x);
        let m = choose|m: int| 0 <= m < swap_chains(views, ids.drop_last()).len() && swap_chains(views, ids.drop_last())[m] == x;
        assert(swap_chains(views, ids)[m] == x);
    } else {
        let sc = swap_chains(views, ids);
        assert(sc[sc.len() - 1] == x);
    }
}

proof fn lemma_target_swap_chain(colors: Seq<ColorAttachmentDescriptor>, views: Storage<TextureView>, k: int, x: Id)
    requires
        0 <= k < target_ids(colors).len(),
        shows_swap_chain(views, target_ids(colors)[k], x),
    ensures
        (swap_chains(views, color_ids(colors)) + swap_chains(views, resolve_ids(colors))).contains(x),
{
    let a = swap_chains(views, color_ids(colors));
    let b = swap_chains(views, resolve_ids(colors));
    if k < color_ids(colors).len() {
        lemma_swap_chain_member(views, color_ids(colors), k, x);
        let m = choose|m: int| 0 <= m < a.len() && a[m] == x;
        assert((a + b)[m] == x);
    } else {
        let j = k - color_ids(colors).len();
        assert(resolve_ids(colors)[j] == target_ids(colors)[k]);
        lemma_swap_chain_member(views, resolve_ids(colors), j, x);
        let m = choose|m: int| 0 <= m < b.len() && b[m] == x;
        assert((a + b)[a.len() + m] == x);
    }
}

/// What `build_pass` promises of each error: the rule the error names is broken.
pub open spec fn build_error_witness(
    desc: RenderPassDescriptor,
    views: Storage<TextureView>,
    cmb_swap_chain: Option<Id>,
    sample_count_mask: u32,
    e: PassError,
) -> bool {
    match e {
        PassError::TooManyColorAttachments => desc.color_attachments@.len() > MAX_COLOR_TARGETS,
        PassError::NoAttachments => desc.color_attachments@.len() == 0 && desc.depth_stencil_attachment is None,
        PassError::InvalidView { id } => is_attachment(desc, id) && views.lookup(id) is None,
        PassError::UnsupportedSampleCount { samples } => samples == pass_samples(views, desc.color_attachments@) && samples & sample_count_mask == 0,
        PassError::ExtentMismatch { id } => is_attachment(desc, id) && views.lookup(id) is Some && view_of(views, id).extent != view_of(views, attachment_ids(desc)[0]).extent,
        PassError::SampleCountMismatch { id } => color_ids(desc.color_attachments@).contains(id) && views.lookup(id) is Some && view_of(views, id).samples != pass_samples(views, desc.color_attachments@),
        PassError::ResolveMultisampled { id } => resolve_ids(desc.color_attachments@).contains(id) && views.lookup(id) is Some && view_of(views, id).samples != 1,
        PassError::ResolveSourceNotMultisampled => resolve_ids(desc.color_attachments@).len() > 0 && pass_samples(views, desc.color_attachments@) == 1,
        PassError::SwapChainDepthStencil => desc.depth_stencil_attachment is Some && view_of(views, desc.depth_stencil_attachment->0.attachment).source is SwapChain,
        PassError::SwapChainMismatch { id } => cmb_swap_chain is Some && cmb_swap_chain != Some(id) && exists|k: int| 0 <= k < target_ids(desc.color_attachments@).len() && shows_swap_chain(views, #[trigger] target_ids(desc.color_attachments@)[k], id),
        PassError::MultipleSwapChainImages => exists|i: int, j: int, a: Id, b: Id| 0 <= i < target_ids(desc.color_attachments@).len() && 0 <= j < target_ids(desc.color_attachments@).len() && a != b && #[trigger] shows_swap_chain(views, target_ids(desc.color_attachments@)[i], a) && #[trigger] shows_swap_chain(views, target_ids(desc.color_attachments@)[j], b),
        PassError::ClearReadOnlyDepth => desc.depth_stencil_attachment is Some && ds_read_only(desc.depth_stencil_attachment->0, view_of(views, desc.depth_stencil_attachment->0.attachment).aspects) == Err::<bool, PassError>(PassError::ClearReadOnlyDepth),
        PassError::ClearReadOnlyStencil => desc.depth_stencil_attachment is Some && ds_read_only(desc.depth_stencil_attachment->0, view_of(views, desc.depth_stencil_attachment->0.attachment).aspects) == Err::<bool, PassError>(PassError::ClearReadOnlyStencil),
    }
}

/// Each refusal of `build_pass` is final: no setup matches attachments that break a rule.
pub proof fn lemma_build_error_not_buildable(
    desc: RenderPassDescriptor,
    views: Storage<TextureView>,
    base: UsageTracker,
    cmb_swap_chain: Option<Id>,
    sample_count_mask: u32,
    e: PassError,
)
    requires
        build_error_witness(desc, views, cmb_swap_chain, sample_count_mask, e),
    ensures
        !pass_buildable(desc.color_attachments@, desc.depth_stencil_attachment, views, base, cmb_swap_chain, sample_count_mask),
{
    let cs = desc.color_attachments@;
    let ds = desc.depth_stencil_attachment;
    let rs = resolve_ids(cs);
    let all = attachment_ids(desc);
    let dsn: int = if ds is Some { 1 } else { 0 };
    assert(all.len() == dsn + cs.len() + rs.len());
    assert(forall|i: int| 0 <= i < cs.len() ==> all[dsn + i] == #[trigger] cs[i].attachment);
    assert(forall|j: int| 0 <= j < rs.len() ==> all[dsn + cs.len() + j] == #[trigger] rs[j]);
    assert(ds is Some ==> all[0] == ds->0.attachment);
    if pass_buildable(cs, ds, views, base, cmb_swap_chain, sample_count_mask) {
        let s = choose|s: PassSetup| setup_matches(cs, ds, views, base, cmb_swap_chain, sample_count_mask, s);
        // every attachment resolves and has the pass's extent
        assert forall|k: int| 0 <= k < all.len() implies views.lookup(#[trigger] all[k]) is Some && view_of(views, all[k]).extent == s.extent by {
            if k < dsn {
            } else if k < dsn + cs.len() {
                assert(color_ok(views, cs[k - dsn].attachment, s.extent, s.sample_count));
            } else {
                assert(resolve_ok(views, rs[k - dsn - cs.len()], s.extent));
            }
        }
        match e {
            PassError::InvalidView { id } => {
                let k = choose|k: int| 0 <= k < all.len() && #[trigger] all[k] == id;
            },
            PassError::ExtentMismatch { id } => {
                let k = choose|k: int| 0 <= k < all.len() && #[trigger] all[k] == id;
                assert(views.lookup(all[0]) is Some);
            },
            PassError::SampleCountMismatch { id } => {
                let k = choose|k: int| 0 <= k < color_ids(cs).len() && color_ids(cs)[k] == id;
                assert(color_ok(views, cs[k].attachment, s.extent, s.sample_count));
            },
            PassError::ResolveMultisampled { id } => {
                let k = choose|k: int| 0 <= k < rs.len() && rs[k] == id;
                assert(resolve_ok(views, rs[k], s.extent));
            },
            PassError::SwapChainMismatch { id } => {
                let k = choose|k: int| 0 <= k < target_ids(cs).len() && shows_swap_chain(views, #[trigger] target_ids(cs)[k], id);
                lemma_target_swap_chain(cs, views, k, id);
                let scs = swap_chains(views, color_ids(cs)) + swap_chains(views, rs);
                let m = choose|m: int| 0 <= m < scs.len() && scs[m] == id;
                assert(Some(scs[m]) == s.swap_chain);
            },
            PassError::MultipleSwapChainImages => {
                let (i, j, a, b) = choose|i: int, j: int, a: Id, b: Id| 0 <= i < target_ids(cs).len() && 0 <= j < target_ids(cs).len() && a != b && #[trigger] shows_swap_chain(views, target_ids(cs)[i], a) && #[trigger] shows_swap_chain(views, target_ids(cs)[j], b);
                lemma_target_swap_chain(cs, views, i, a);
                lemma_target_swap_chain(cs, views, j, b);
                let scs = swap_chains(views, color_ids(cs)) + swap_chains(views, rs);
                let ma = choose|m: int| 0 <= m < scs.len() && scs[m] == a;
                let mb = choose|m: int| 0 <= m < scs.len() && scs[m] == b;
                assert(Some(scs[ma]) == s.swap_chain);
                assert(Some(scs[mb]) == s.swap_chain);
            },
            _ => {},
        }
    }
}

/// Checks the attachments of a pass against the views they name and derives what the
/// pass is built from: the keys of its backend pass and framebuffer, its extent,
/// sample count and formats, and the texture attachments whose use it changes.
pub fn build_pass(
    desc: &RenderPassDescriptor,
    views: &Storage<TextureView>,
    base: &UsageTracker,
    cmb_swap_chain: Option<Id>,
    sample_count_mask: u32,
) -> (r: Result<PassSetup, PassError>)
    ensures
        r is Err ==> build_error_witness(*desc, *views, cmb_swap_chain, sample_count_mask, r->Err_0),
        r is Ok ==> setup_matches(desc.color_attachments@, desc.depth_stencil_attachment, *views, *base, cmb_swap_chain, sample_count_mask, r->Ok_0),
        match r {
            Ok(_) => true,
            Err(PassError::TooManyColorAttachments) => desc.color_attachments@.len() > MAX_COLOR_TARGETS,
            Err(PassError::NoAttachments) => desc.color_attachments@.len() == 0 && desc.depth_stencil_attachment is None,
            Err(PassError::InvalidView { id }) => is_attachment(*desc, id) && views.lookup(id) is None,
            Err(PassError::UnsupportedSampleCount { samples }) => samples == pass_samples(*views, desc.color_attachments@) && samples & sample_count_mask == 0,
            Err(PassError::ExtentMismatch { id }) => is_attachment(*desc, id) && views.lookup(id) is Some && view_of(*views, id).extent != view_of(*views, attachment_ids(*desc)[0]).extent,
            Err(PassError::SampleCountMismatch { id }) => color_ids(desc.color_attachments@).contains(id) && views.lookup(id) is Some && view_of(*views, id).samples != pass_samples(*views, desc.color_attachments@),
            Err(PassError::ResolveMultisampled { id }) => resolve_ids(desc.color_attachments@).contains(id) && views.lookup(id) is Some && view_of(*views, id).samples != 1,
            Err(PassError::ResolveSourceNotMultisampled) => resolve_ids(desc.color_attachments@).len() > 0 && pass_samples(*views, desc.color_attachments@) == 1,
            Err(PassError::SwapChainDepthStencil) => desc.depth_stencil_attachment is Some && view_of(*views, desc.depth_stencil_attachment->0.attachment).source is SwapChain,
            Err(PassError::SwapChainMismatch { id }) => cmb_swap_chain is Some && cmb_swap_chain != Some(id) && exists|k: int| 0 <= k < target_ids(desc.color_attachments@).len() && shows_swap_chain(*views, #[trigger] target_ids(desc.color_attachments@)[k], id),
            Err(PassError::MultipleSwapChainImages) => exists|i: int, j: int, a: Id, b: Id| 0 <= i < target_ids(desc.color_attachments@).len() && 0 <= j < target_ids(desc.color_attachments@).len() && a != b && #[trigger] shows_swap_chain(*views, target_ids(desc.color_attachments@)[i], a) && #[trigger] shows_swap_chain(*views, target_ids(desc.color_attachments@)[j], b),
            Err(PassError::ClearReadOnlyDepth) => desc.depth_stencil_attachment is Some && ds_read_only(desc.depth_stencil_attachment->0, view_of(*views, desc.depth_stencil_attachment->0.attachment).aspects) == Err::<bool, PassError>(PassError::ClearReadOnlyDepth),
            Err(PassError::ClearReadOnlyStencil) => desc.depth_stencil_attachment is Some && ds_read_only(desc.depth_stencil_attachment->0, view_of(*views, desc.depth_stencil_attachment->0.attachment).aspects) == Err::<bool, PassError>(PassError::ClearReadOnlyStencil),
        },
{
    let colors = &desc.color_attachments;
    let ghost cs = colors@;
    let ghost all = attachment_ids(*desc);
    let ghost dsn: int = if desc.depth_stencil_attachment is Some { 1 } else { 0 };
    assert(all.len() == dsn + cs.len() + resolve_ids(cs).len());
    assert(forall|i: int| 0 <= i < cs.len() ==> all[dsn + i] == #[trigger] cs[i].attachment);
    assert(forall|j: int| 0 <= j < resolve_ids(cs).len() ==> all[dsn + cs.len() + j] == #[trigger] resolve_ids(cs)[j]);
    if colors.len() > MAX_COLOR_TARGETS {
        return Err(PassError::TooManyColorAttachments);
    }
    if colors.len() == 0 && desc.depth_stencil_attachment.is_none() {
        return Err(PassError::NoAttachments);
    }
    let mut outputs: Vec<OutputAttachment> = Vec::new();
    let mut is_ds_read_only = false;
    let mut ds_key_v: Option<AttachmentKey> = None;
    let mut ds_format: Option<TextureFormat> = None;
    let mut first_extent: Option<Extent3d> = None;
    match desc.depth_stencil_attachment {
        Some(d) => {
            assert(all[0] == d.attachment);
            let v = view_at(views, d.attachment)?;
            let texture_id = match v.source {
                ViewSource::Native { texture_id } => texture_id,
                ViewSource::SwapChain { .. } => {
                    return Err(PassError::SwapChainDepthStencil);
                },
            };
            is_ds_read_only = is_depth_stencil_read_only(&d, v.aspects)?;
            let new_use = if is_ds_read_only {
                TEXTURE_USE_ATTACHMENT_READ
            } else {
                TEXTURE_USE_ATTACHMENT_WRITE
            };
            output_for(&v, new_use, v.aspects, base, &mut outputs);
            let layouts = layouts_of(base.query(texture_id), new_use, v.aspects);
            ds_key_v = Some(AttachmentKey {
                format: v.format,
                samples: v.samples,
                load: load_op_of(d.depth_load_op),
                store: store_op_of(d.depth_store_op),
                stencil_load: load_op_of(d.stencil_load_op),
                stencil_store: store_op_of(d.stencil_store_op),
                old_layout: layouts.0,
                new_layout: layouts.1,
            });
            ds_format = Some(v.format);
            first_extent = Some(v.extent);
        },
        None => {},
    }
    assert(outputs@ == ds_outputs(*views, desc.depth_stencil_attachment, *base, is_ds_read_only));
    let sample_count: u32 = if colors.len() > 0 {
        assert(all[dsn] == cs[0].attachment);
        let v0 = view_at(views, colors[0].attachment)?;
        if first_extent.is_none() {
            first_extent = Some(v0.extent);
        }
        v0.samples
    } else {
        1
    };
    if sample_count & sample_count_mask == 0 {
        return Err(PassError::UnsupportedSampleCount { samples: sample_count });
    }
    let extent = match first_extent {
        Some(e) => e,
        None => {
            return Err(PassError::NoAttachments);
        },
    };
    assert(extent == view_of(*views, all[0]).extent);
    let mut g = Gathered { keys: Vec::new(), ids: Vec::new(), formats: Vec::new(), outputs, used: None };
    match add_colors(colors, views, base, cmb_swap_chain, extent, sample_count, &mut g) {
        Err(e) => {
            proof {
                assert(target_ids(cs).len() >= cs.len());
                assert(forall|i: int| 0 <= i < cs.len() ==> target_ids(cs)[i] == #[trigger] cs[i].attachment);
                if let PassError::InvalidView { id } = e {
                    let i = choose|i: int| 0 <= i < cs.len() && #[trigger] cs[i].attachment == id && views.lookup(id) is None;
                    assert(all[dsn + i] == id);
                }
                if let PassError::ExtentMismatch { id } = e {
                    let i = choose|i: int| 0 <= i < cs.len() && #[trigger] cs[i].attachment == id && views.lookup(id) is Some && view_of(*views, id).extent != extent;
                    assert(all[dsn + i] == id);
                }
                if let PassError::SampleCountMismatch { id } = e {
                    let i = choose|i: int| 0 <= i < cs.len() && #[trigger] cs[i].attachment == id && views.lookup(id) is Some && view_of(*views, id).samples != sample_count;
                    assert(all[dsn + i] == id);
                }
                if let PassError::SwapChainMismatch { id } = e {
                    let i = choose|i: int| 0 <= i < cs.len() && shows_swap_chain(*views, #[trigger] cs[i].attachment, id);
                    assert(target_ids(cs)[i] == cs[i].attachment);
                }
                if e == PassError::MultipleSwapChainImages {
                    let (i, j, a, b) = choose|i: int, j: int, a: Id, b: Id| 0 <= i < cs.len() && 0 <= j < cs.len() && a != b && #[trigger] shows_swap_chain(*views, cs[i].attachment, a) && #[trigger] shows_swap_chain(*views, cs[j].attachment, b);
                    assert(target_ids(cs)[i] == cs[i].attachment);
                    assert(target_ids(cs)[j] == cs[j].attachment);
                    assert(shows_swap_chain(*views, target_ids(cs)[i], a));
                    assert(shows_swap_chain(*views, target_ids(cs)[j], b));
                }
            }
            return Err(e);
        },
        Ok(()) => {},
    }
    let color_keys = g.keys;
    let color_ids_v = g.ids;
    let color_formats = g.formats;
    let mut h = Gathered { keys: Vec::new(), ids: Vec::new(), formats: Vec::new(), outputs: g.outputs, used: g.used };
    match add_resolves(colors, views, base, cmb_swap_chain, extent, &mut h) {
        Err(e) => {
            proof {
                if let PassError::InvalidView { id } = e {
                    let j = choose|j: int| 0 <= j < resolve_ids(cs).len() && #[trigger] resolve_ids(cs)[j] == id && views.lookup(id) is None;
                    assert(all[dsn + cs.len() + j] == id);
                }
                if let PassError::ExtentMismatch { id } = e {
                    let j = choose|j: int| 0 <= j < resolve_ids(cs).len() && #[trigger] resolve_ids(cs)[j] == id && views.lookup(id) is Some && view_of(*views, id).extent != extent;
                    assert(all[dsn + cs.len() + j] == id);
                }
                if let PassError::ResolveMultisampled { id } = e {
                    let j = choose|j: int| 0 <= j < resolve_ids(cs).len() && #[trigger] resolve_ids(cs)[j] == id && views.lookup(id) is Some && view_of(*views, id).samples != 1;
                    assert(all[dsn + cs.len() + j] == id);
                }
                if let PassError::SwapChainMismatch { id } = e {
                    let j = choose|j: int| 0 <= j < resolve_ids(cs).len() && shows_swap_chain(*views, #[trigger] resolve_ids(cs)[j], id);
                    assert(target_ids(cs)[cs.len() + j] == resolve_ids(cs)[j]);
                }
            }
            return Err(e);
        },
        Ok(()) => {},
    }
    if h.ids.len() > 0 && sample_count == 1 {
        return Err(PassError::ResolveSourceNotMultisampled);
    }
    let setup = PassSetup {
        rp_key: RenderPassKey { colors: color_keys, resolves: h.keys, depth_stencil: ds_key_v },
        fb_key: FramebufferKey {
            colors: color_ids_v,
            resolves: h.ids,
            depth_stencil: match desc.depth_stencil_attachment {
                Some(d) => Some(d.attachment),
                None => None,
            },
        },
        is_ds_read_only,
        output_attachments: h.outputs,
        extent,
        color_formats,
        resolve_formats: h.formats,
        depth_stencil_format: ds_format,
        sample_count,
        swap_chain: h.used,
    };
    Ok(setup)
}

} // verus!
