//! The header of a render pass stream: its color and depth-stencil attachments,
//! in a fixed number of slots.
use vstd::prelude::*;
use crate::bytes::{
    fields_bytes, fields_fit, lemma_fields_fit_add, lemma_fields_round_trip, lemma_pow256_values,
    lemma_widths_total_add, pow256, read_fields, read_fields_at, valid_width, widths_total,
    write_fields,
};
use crate::codec::FramingError;
use crate::types::{
    Color, ColorAttachmentDescriptor, DepthStencilAttachmentDescriptor, Id, LoadOp,
    RenderPassDescriptor, StoreOp, MAX_COLOR_TARGETS,
};

verus! {

/// The size of the header: four color slots and one depth-stencil slot.
pub const TARGETS_SIZE: usize = 231;

pub open spec fn load_code(op: LoadOp) -> u64 {
    match op {
        LoadOp::Clear => 0,
        LoadOp::Load => 1,
    }
}

pub open spec fn load_of(v: u64) -> LoadOp {
    if v == 0 {
        LoadOp::Clear
    } else {
        LoadOp::Load
    }
}

pub open spec fn store_code(op: StoreOp) -> u64 {
    match op {
        StoreOp::Clear => 0,
        StoreOp::Store => 1,
    }
}

pub open spec fn store_of(v: u64) -> StoreOp {
    if v == 0 {
        StoreOp::Clear
    } else {
        StoreOp::Store
    }
}

pub open spec fn bool_code(b: bool) -> u64 {
    if b {
        1
    } else {
        0
    }
}

pub open spec fn color_widths() -> Seq<usize> {
    seq![1usize, 4, 4, 1, 4, 4, 1, 1, 8, 8, 8, 8]
}

pub open spec fn ds_widths() -> Seq<usize> {
    seq![1usize, 4, 4, 1, 1, 4, 1, 1, 1, 4, 1]
}

pub open spec fn targets_widths() -> Seq<usize> {
    color_widths() + color_widths() + color_widths() + color_widths() + ds_widths()
}

/// The fields of one color slot; an empty slot is all zeros.
pub open spec fn color_fields(slot: Option<ColorAttachmentDescriptor>) -> Seq<u64> {
    match slot {
        None => Seq::new(12, |i: int| 0u64),
        Some(c) => seq![
            1u64,
            c.attachment.index as u64,
            c.attachment.epoch as u64,
            bool_code(c.resolve_target is Some),
            match c.resolve_target {
                Some(r) => r.index as u64,
                None => 0,
            },
            match c.resolve_target {
                Some(r) => r.epoch as u64,
                None => 0,
            },
            load_code(c.load_op),
            store_code(c.store_op),
            c.clear_color.r,
            c.clear_color.g,
            c.clear_color.b,
            c.clear_color.a,
        ],
    }
}

/// The fields of the depth-stencil slot; an empty slot is all zeros.
pub open spec fn ds_fields(slot: Option<DepthStencilAttachmentDescriptor>) -> Seq<u64> {
    match slot {
        None => Seq::new(11, |i: int| 0u64),
        Some(d) => seq![
            1u64,
            d.attachment.index as u64,
            d.attachment.epoch as u64,
            load_code(d.depth_load_op),
            store_code(d.depth_store_op),
            d.clear_depth as u64,
            bool_code(d.depth_read_only),
            load_code(d.stencil_load_op),
            store_code(d.stencil_store_op),
            d.clear_stencil as u64,
            bool_code(d.stencil_read_only),
        ],
    }
}

pub open spec fn slot(colors: Seq<ColorAttachmentDescriptor>, i: int) -> Option<
    ColorAttachmentDescriptor,
> {
    if i < colors.len() {
        Some(colors[i])
    } else {
        None
    }
}

/// The fields of the header of a pass with these attachments.
pub open spec fn targets_fields(
    colors: Seq<ColorAttachmentDescriptor>,
    ds: Option<DepthStencilAttachmentDescriptor>,
) -> Seq<u64> {
    color_fields(slot(colors, 0)) + color_fields(slot(colors, 1)) + color_fields(slot(colors, 2))
        + color_fields(slot(colors, 3)) + ds_fields(ds)
}

/// The bytes of the header of a pass with these attachments.
pub open spec fn targets_bytes(
    colors: Seq<ColorAttachmentDescriptor>,
    ds: Option<DepthStencilAttachmentDescriptor>,
) -> Seq<u8> {
    fields_bytes(targets_fields(colors, ds), targets_widths())
}

/// The color slot whose fields start at `at`.
pub open spec fn color_from(fs: Seq<u64>, at: int) -> Option<ColorAttachmentDescriptor> {
    if fs[at] == 0 {
        None
    } else {
        Some(
            ColorAttachmentDescriptor {
                attachment: Id { index: fs[at + 1] as u32, epoch: fs[at + 2] as u32 },
                resolve_target: if fs[at + 3] == 0 {
                    None
                } else {
                    Some(Id { index: fs[at + 4] as u32, epoch: fs[at + 5] as u32 })
                },
                load_op: load_of(fs[at + 6]),
                store_op: store_of(fs[at + 7]),
                clear_color: Color {
                    r: fs[at + 8],
                    g: fs[at + 9],
                    b: fs[at + 10],
                    a: fs[at + 11],
                },
            },
        )
    }
}

/// The depth-stencil slot whose fields start at `at`.
pub open spec fn ds_from(fs: Seq<u64>, at: int) -> Option<DepthStencilAttachmentDescriptor> {
    if fs[at] == 0 {
        None
    } else {
        Some(
            DepthStencilAttachmentDescriptor {
                attachment: Id { index: fs[at + 1] as u32, epoch: fs[at + 2] as u32 },
                depth_load_op: load_of(fs[at + 3]),
                depth_store_op: store_of(fs[at + 4]),
                clear_depth: fs[at + 5] as u32,
                depth_read_only: fs[at + 6] != 0,
                stencil_load_op: load_of(fs[at + 7]),
                stencil_store_op: store_of(fs[at + 8]),
                clear_stencil: fs[at + 9] as u32,
                stencil_read_only: fs[at + 10] != 0,
            },
        )
    }
}

/// The color attachments of the header fields `fs` from slot `i` on, up to the first
/// empty slot.
pub open spec fn colors_from(fs: Seq<u64>, i: nat) -> Seq<ColorAttachmentDescriptor>
    decreases 4 - i,
{
    if i >= 4 {
        Seq::empty()
    } else {
        match color_from(fs, (12 * i) as int) {
            None => Seq::empty(),
            Some(c) => seq![c] + colors_from(fs, i + 1),
        }
    }
}

/// The attachments that the header at the front of `s` describes.
pub open spec fn parse_targets(s: Seq<u8>) -> Result<
    (Seq<ColorAttachmentDescriptor>, Option<DepthStencilAttachmentDescriptor>),
    FramingError,
> {
    if s.len() < TARGETS_SIZE {
        Err(FramingError::Truncated { offset: 0 })
    } else {
        let fs = read_fields(s, targets_widths());
        Ok((colors_from(fs, 0), ds_from(fs, 48)))
    }
}

proof fn lemma_targets_widths()
    ensures
        targets_widths().len() == 59,
        widths_total(targets_widths()) == TARGETS_SIZE,
        forall|i: int| 0 <= i < 59 ==> #[trigger] valid_width(targets_widths()[i]),
{
    reveal_with_fuel(widths_total, 13);
    let c = color_widths();
    let d = ds_widths();
    assert(widths_total(c) == 52);
    assert(widths_total(d) == 23);
    lemma_widths_total_add(c, c);
    lemma_widths_total_add(c + c, c);
    lemma_widths_total_add(c + c + c, c);
    lemma_widths_total_add(c + c + c + c, d);
    let ws = targets_widths();
    assert(ws =~= seq![
        1usize, 4, 4, 1, 4, 4, 1, 1, 8, 8, 8, 8,
        1usize, 4, 4, 1, 4, 4, 1, 1, 8, 8, 8, 8,
        1usize, 4, 4, 1, 4, 4, 1, 1, 8, 8, 8, 8,
        1usize, 4, 4, 1, 4, 4, 1, 1, 8, 8, 8, 8,
        1usize, 4, 4, 1, 1, 4, 1, 1, 1, 4, 1
    ]);
}

fn targets_widths_vec() -> (r: Vec<usize>)
    ensures
        r@ == targets_widths(),
{
    let mut r: Vec<usize> = Vec::new();
    let mut k: usize = 0;
    while k < 4
        invariant
            k <= 4,
            r@.len() == 12 * k,
            forall|j: int| 0 <= j < r@.len() ==> r@[j] == color_widths()[j % 12],
        decreases 4 - k,
    {
        let ghost before = r@;
        r.push(1); r.push(4); r.push(4); r.push(1); r.push(4); r.push(4);
        r.push(1); r.push(1); r.push(8); r.push(8); r.push(8); r.push(8);
        k = k + 1;
    }
    r.push(1); r.push(4); r.push(4); r.push(1); r.push(1); r.push(4);
    r.push(1); r.push(1); r.push(1); r.push(4); r.push(1);
    assert(r@ =~= targets_widths());
    r
}


proof fn lemma_color_fields(slot: Option<ColorAttachmentDescriptor>)
    ensures
        fields_fit(color_fields(slot), color_widths()),
        color_from(color_fields(slot), 0) == slot,
{
    lemma_pow256_values();
    let fs = color_fields(slot);
    let ws = color_widths();
    assert forall|i: int| 0 <= i < ws.len() implies #[trigger] valid_width(ws[i]) by {}
    assert forall|i: int| 0 <= i < ws.len() implies (fs[i] as nat) < #[trigger] pow256(
        ws[i] as nat,
    ) by {}
    if let Some(c) = slot {
        assert(load_of(load_code(c.load_op)) == c.load_op);
        assert(store_of(store_code(c.store_op)) == c.store_op);
    }
}

proof fn lemma_ds_fields(slot: Option<DepthStencilAttachmentDescriptor>)
    ensures
        fields_fit(ds_fields(slot), ds_widths()),
        ds_from(ds_fields(slot), 0) == slot,
{
    lemma_pow256_values();
    let fs = ds_fields(slot);
    let ws = ds_widths();
    assert forall|i: int| 0 <= i < ws.len() implies #[trigger] valid_width(ws[i]) by {}
    assert forall|i: int| 0 <= i < ws.len() implies (fs[i] as nat) < #[trigger] pow256(
        ws[i] as nat,
    ) by {}
    if let Some(d) = slot {
        assert(load_of(load_code(d.depth_load_op)) == d.depth_load_op);
        assert(store_of(store_code(d.depth_store_op)) == d.depth_store_op);
        assert(load_of(load_code(d.stencil_load_op)) == d.stencil_load_op);
        assert(store_of(store_code(d.stencil_store_op)) == d.stencil_store_op);
    }
}

proof fn lemma_targets_fit(
    colors: Seq<ColorAttachmentDescriptor>,
    ds: Option<DepthStencilAttachmentDescriptor>,
)
    ensures
        fields_fit(targets_fields(colors, ds), targets_widths()),
{
    let c = color_widths();
    lemma_color_fields(slot(colors, 0));
    lemma_color_fields(slot(colors, 1));
    lemma_color_fields(slot(colors, 2));
    lemma_color_fields(slot(colors, 3));
    lemma_ds_fields(ds);
    let f0 = color_fields(slot(colors, 0));
    let f1 = color_fields(slot(colors, 1));
    let f2 = color_fields(slot(colors, 2));
    let f3 = color_fields(slot(colors, 3));
    lemma_fields_fit_add(f0, c, f1, c);
    lemma_fields_fit_add(f0 + f1, c + c, f2, c);
    lemma_fields_fit_add(f0 + f1 + f2, c + c + c, f3, c);
    lemma_fields_fit_add(f0 + f1 + f2 + f3, c + c + c + c, ds_fields(ds), ds_widths());
}

/// Reading back the header of a pass with at most four color attachments gives its
/// attachments.
#[verifier::rlimit(60)]
pub proof fn lemma_targets_round_trip(
    colors: Seq<ColorAttachmentDescriptor>,
    ds: Option<DepthStencilAttachmentDescriptor>,
    rest: Seq<u8>,
)
    requires
        colors.len() <= MAX_COLOR_TARGETS,
    ensures
        targets_bytes(colors, ds).len() == TARGETS_SIZE,
        parse_targets(targets_bytes(colors, ds) + rest) == Ok::<
            (Seq<ColorAttachmentDescriptor>, Option<DepthStencilAttachmentDescriptor>),
            FramingError,
        >((colors, ds)),
{
    lemma_targets_widths();
    lemma_targets_fit(colors, ds);
    let fs = targets_fields(colors, ds);
    lemma_fields_round_trip(fs, targets_widths(), rest);
    let f0 = color_fields(slot(colors, 0));
    let f1 = color_fields(slot(colors, 1));
    let f2 = color_fields(slot(colors, 2));
    let f3 = color_fields(slot(colors, 3));
    let f4 = ds_fields(ds);
    lemma_color_fields(slot(colors, 0));
    lemma_color_fields(slot(colors, 1));
    lemma_color_fields(slot(colors, 2));
    lemma_color_fields(slot(colors, 3));
    lemma_ds_fields(ds);
    assert(fs.subrange(0, 12) =~= f0);
    assert(fs.subrange(12, 24) =~= f1);
    assert(fs.subrange(24, 36) =~= f2);
    assert(fs.subrange(36, 48) =~= f3);
    assert(fs.subrange(48, 59) =~= f4);
    assert(color_from(fs, 0) == color_from(f0, 0));
    assert(color_from(fs, 12) == color_from(f1, 0));
    assert(color_from(fs, 24) == color_from(f2, 0));
    assert(color_from(fs, 36) == color_from(f3, 0));
    assert(ds_from(fs, 48) == ds_from(f4, 0));
    reveal_with_fuel(colors_from, 5);
    assert(colors_from(fs, 0) =~= colors);
}


fn load_code_of(op: LoadOp) -> (r: u64)
    ensures
        r == load_code(op),
{
    match op {
        LoadOp::Clear => 0,
        LoadOp::Load => 1,
    }
}

fn store_code_of(op: StoreOp) -> (r: u64)
    ensures
        r == store_code(op),
{
    match op {
        StoreOp::Clear => 0,
        StoreOp::Store => 1,
    }
}

fn load_at(v: u64) -> (r: LoadOp)
    ensures
        r == load_of(v),
{
    if v == 0 {
        LoadOp::Clear
    } else {
        LoadOp::Load
    }
}

fn store_at(v: u64) -> (r: StoreOp)
    ensures
        r == store_of(v),
{
    if v == 0 {
        StoreOp::Clear
    } else {
        StoreOp::Store
    }
}

fn push_color_fields(fs: &mut Vec<u64>, slot: Option<ColorAttachmentDescriptor>)
    ensures
        final(fs)@ == old(fs)@ + color_fields(slot),
{
    match slot {
        None => {
            let mut k: usize = 0;
            while k < 12
                invariant
                    k <= 12,
                    fs@ == old(fs)@ + Seq::new(k as nat, |i: int| 0u64),
                decreases 12 - k,
            {
                fs.push(0);
                k = k + 1;
                assert(fs@ =~= old(fs)@ + Seq::new(k as nat, |i: int| 0u64));
            }
        },
        Some(c) => {
            fs.push(1);
            fs.push(c.attachment.index as u64);
            fs.push(c.attachment.epoch as u64);
            match c.resolve_target {
                Some(r) => {
                    fs.push(1);
                    fs.push(r.index as u64);
                    fs.push(r.epoch as u64);
                },
                None => {
                    fs.push(0);
                    fs.push(0);
                    fs.push(0);
                },
            }
            fs.push(load_code_of(c.load_op));
            fs.push(store_code_of(c.store_op));
            fs.push(c.clear_color.r);
            fs.push(c.clear_color.g);
            fs.push(c.clear_color.b);
            fs.push(c.clear_color.a);
            assert(fs@ =~= old(fs)@ + color_fields(slot));
        },
    }
}

fn push_ds_fields(fs: &mut Vec<u64>, slot: Option<DepthStencilAttachmentDescriptor>)
    ensures
        final(fs)@ == old(fs)@ + ds_fields(slot),
{
    match slot {
        None => {
            let mut k: usize = 0;
            while k < 11
                invariant
                    k <= 11,
                    fs@ == old(fs)@ + Seq::new(k as nat, |i: int| 0u64),
                decreases 11 - k,
            {
                fs.push(0);
                k = k + 1;
                assert(fs@ =~= old(fs)@ + Seq::new(k as nat, |i: int| 0u64));
            }
        },
        Some(d) => {
            fs.push(1);
            fs.push(d.attachment.index as u64);
            fs.push(d.attachment.epoch as u64);
            fs.push(load_code_of(d.depth_load_op));
            fs.push(store_code_of(d.depth_store_op));
            fs.push(d.clear_depth as u64);
            fs.push(if d.depth_read_only { 1 } else { 0 });
            fs.push(load_code_of(d.stencil_load_op));
            fs.push(store_code_of(d.stencil_store_op));
            fs.push(d.clear_stencil as u64);
            fs.push(if d.stencil_read_only { 1 } else { 0 });
            assert(fs@ =~= old(fs)@ + ds_fields(slot));
        },
    }
}

/// Appends the header that describes the attachments of `desc`.
pub fn encode_targets(out: &mut Vec<u8>, desc: &RenderPassDescriptor)
    requires
        desc.color_attachments@.len() <= MAX_COLOR_TARGETS,
    ensures
        final(out)@ == old(out)@ + targets_bytes(
            desc.color_attachments@,
            desc.depth_stencil_attachment,
        ),
{
    let ghost colors = desc.color_attachments@;
    let mut fs: Vec<u64> = Vec::new();
    let mut i: usize = 0;
    while i < 4
        invariant
            i <= 4,
            colors == desc.color_attachments@,
            colors.len() <= 4,
            fs@ == if i == 0 {
                Seq::empty()
            } else if i == 1 {
                color_fields(slot(colors, 0))
            } else if i == 2 {
                color_fields(slot(colors, 0)) + color_fields(slot(colors, 1))
            } else if i == 3 {
                color_fields(slot(colors, 0)) + color_fields(slot(colors, 1)) + color_fields(
                    slot(colors, 2),
                )
            } else {
                color_fields(slot(colors, 0)) + color_fields(slot(colors, 1)) + color_fields(
                    slot(colors, 2),
                ) + color_fields(slot(colors, 3))
            },
        decreases 4 - i,
    {
        let s = if i < desc.color_attachments.len() {
            Some(desc.color_attachments[i])
        } else {
            None
        };
        assert(s == slot(colors, i as int));
        push_color_fields(&mut fs, s);
        i = i + 1;
        assert(i != 1 || fs@ =~= color_fields(slot(colors, 0)));
    }
    push_ds_fields(&mut fs, desc.depth_stencil_attachment);
    let ws = targets_widths_vec();
    proof {
        lemma_targets_fit(colors, desc.depth_stencil_attachment);
    }
    write_fields(out, &fs, &ws);
}

fn color_at(fs: &Vec<u64>, at: usize) -> (r: Option<ColorAttachmentDescriptor>)
    requires
        at + 12 <= fs@.len(),
        at <= 48,
    ensures
        r == color_from(fs@, at as int),
{
    if fs[at] == 0 {
        None
    } else {
        Some(
            ColorAttachmentDescriptor {
                attachment: Id { index: fs[at + 1] as u32, epoch: fs[at + 2] as u32 },
                resolve_target: if fs[at + 3] == 0 {
                    None
                } else {
                    Some(Id { index: fs[at + 4] as u32, epoch: fs[at + 5] as u32 })
                },
                load_op: load_at(fs[at + 6]),
                store_op: store_at(fs[at + 7]),
                clear_color: Color {
                    r: fs[at + 8],
                    g: fs[at + 9],
                    b: fs[at + 10],
                    a: fs[at + 11],
                },
            },
        )
    }
}

fn ds_at(fs: &Vec<u64>) -> (r: Option<DepthStencilAttachmentDescriptor>)
    requires
        59 <= fs@.len(),
    ensures
        r == ds_from(fs@, 48),
{
    if fs[48] == 0 {
        None
    } else {
        Some(
            DepthStencilAttachmentDescriptor {
                attachment: Id { index: fs[49] as u32, epoch: fs[50] as u32 },
                depth_load_op: load_at(fs[51]),
                depth_store_op: store_at(fs[52]),
                clear_depth: fs[53] as u32,
                depth_read_only: fs[54] != 0,
                stencil_load_op: load_at(fs[55]),
                stencil_store_op: store_at(fs[56]),
                clear_stencil: fs[57] as u32,
                stencil_read_only: fs[58] != 0,
            },
        )
    }
}

/// Reads the header at the front of `data`.
pub fn decode_targets(data: &[u8]) -> (r: Result<RenderPassDescriptor, FramingError>)
    ensures
        match parse_targets(data@) {
            Ok((colors, ds)) => r is Ok && r->Ok_0.color_attachments@ == colors
                && r->Ok_0.depth_stencil_attachment == ds,
            Err(e) => r is Err && r->Err_0 == e,
        },
{
    if data.len() < TARGETS_SIZE {
        return Err(FramingError::Truncated { offset: 0 });
    }
    let ws = targets_widths_vec();
    proof {
        lemma_targets_widths();
    }
    let fs = read_fields_at(data, 0, &ws);
    assert(data@.skip(0) =~= data@);
    let mut colors: Vec<ColorAttachmentDescriptor> = Vec::new();
    let mut i: usize = 0;
    loop
        invariant
            i <= 4,
            fs@.len() == 59,
            colors@ + colors_from(fs@, i as nat) == colors_from(fs@, 0),
        ensures
            colors@ == colors_from(fs@, 0),
        decreases 4 - i,
    {
        if i >= 4 {
            assert(colors@ + Seq::<ColorAttachmentDescriptor>::empty() =~= colors@);
            break;
        }
        match color_at(&fs, 12 * i) {
            None => {
                assert(colors@ + Seq::<ColorAttachmentDescriptor>::empty() =~= colors@);
                break;
            },
            Some(c) => {
                let ghost before = colors@;
                colors.push(c);
                assert(before + (seq![c] + colors_from(fs@, (i + 1) as nat)) =~= colors@
                    + colors_from(fs@, (i + 1) as nat));
                i = i + 1;
            },
        }
    }
    let ds = ds_at(&fs);
    Ok(RenderPassDescriptor { color_attachments: colors, depth_stencil_attachment: ds })
}

} // verus!
