//! The binary command stream of a render pass: tagged records, each followed by
//! its trailer, closed by a padded `End` record.
use vstd::prelude::*;
use crate::bytes::{
    fields_bytes, fields_fit, lemma_fields_round_trip, lemma_pow256_values, pow256, read_fields,
    read_fields_at, valid_width, widths_total, write_fields,
};
use crate::types::{Color, Id, Rect};

verus! {

/// One command of a render pass. Variable-length payloads (dynamic offsets, debug
/// labels) follow the record in the stream; the record holds their count.
#[derive(PartialEq, Eq, Structural, Clone, Copy, Debug)]
pub enum RenderCommand {
    SetBindGroup { index: u8, num_dynamic_offsets: u8, bind_group_id: Id },
    SetPipeline(Id),
    SetIndexBuffer { buffer_id: Id, offset: u64, size: u64 },
    SetVertexBuffer { slot: u32, buffer_id: Id, offset: u64, size: u64 },
    SetBlendColor(Color),
    SetStencilReference(u32),
    /// Coordinates and depths are `f32` bit patterns.
    SetViewport { rect: Rect<u32>, depth_min: u32, depth_max: u32 },
    SetScissor(Rect<u32>),
    Draw { vertex_count: u32, instance_count: u32, first_vertex: u32, first_instance: u32 },
    DrawIndexed {
        index_count: u32,
        instance_count: u32,
        first_index: u32,
        base_vertex: i32,
        first_instance: u32,
    },
    DrawIndirect { buffer_id: Id, offset: u64 },
    DrawIndexedIndirect { buffer_id: Id, offset: u64 },
    PushDebugGroup { color: u32, len: u32 },
    PopDebugGroup,
    InsertDebugMarker { color: u32, len: u32 },
    ExecuteBundle(Id),
    End,
}

impl Default for RenderCommand {
    /// The closing command.
    fn default() -> (r: Self)
        ensures
            r == RenderCommand::End,
    {
        RenderCommand::End
    }
}

/// The largest size of a record without its trailer; a reader checks that this many
/// bytes remain before it reads any record.
pub const MAX_RECORD_SIZE: usize = 33;

pub const TAG_END: u8 = 16;

/// Why a command stream could not be read.
#[derive(PartialEq, Eq, Structural, Clone, Copy, Debug)]
pub enum FramingError {
    /// Fewer than `MAX_RECORD_SIZE` bytes remain where a record starts.
    Truncated { offset: usize },
    /// The record's tag names no command.
    UnknownTag { offset: usize, tag: u8 },
    /// The record's trailer runs past the end of the stream.
    TrailerOverrun { offset: usize },
}

pub open spec fn command_tag(c: RenderCommand) -> u8 {
    match c {
        RenderCommand::SetBindGroup { .. } => 0,
        RenderCommand::SetPipeline(..) => 1,
        RenderCommand::SetIndexBuffer { .. } => 2,
        RenderCommand::SetVertexBuffer { .. } => 3,
        RenderCommand::SetBlendColor(..) => 4,
        RenderCommand::SetStencilReference(..) => 5,
        RenderCommand::SetViewport { .. } => 6,
        RenderCommand::SetScissor(..) => 7,
        RenderCommand::Draw { .. } => 8,
        RenderCommand::DrawIndexed { .. } => 9,
        RenderCommand::DrawIndirect { .. } => 10,
        RenderCommand::DrawIndexedIndirect { .. } => 11,
        RenderCommand::PushDebugGroup { .. } => 12,
        RenderCommand::PopDebugGroup => 13,
        RenderCommand::InsertDebugMarker { .. } => 14,
        RenderCommand::ExecuteBundle(..) => 15,
        RenderCommand::End => 16,
    }
}

/// The widths of the fixed fields that follow a tag, or `None` for an unknown tag.
pub open spec fn fixed_widths(tag: u8) -> Option<Seq<usize>> {
    if tag == 0 {
        Some(seq![1usize, 1, 4, 4])
    } else if tag == 1 || tag == 15 {
        Some(seq![4usize, 4])
    } else if tag == 2 {
        Some(seq![4usize, 4, 8, 8])
    } else if tag == 3 {
        Some(seq![4usize, 4, 4, 8, 8])
    } else if tag == 4 {
        Some(seq![8usize, 8, 8, 8])
    } else if tag == 5 {
        Some(seq![4usize])
    } else if tag == 6 {
        Some(seq![4usize, 4, 4, 4, 4, 4])
    } else if tag == 7 || tag == 8 {
        Some(seq![4usize, 4, 4, 4])
    } else if tag == 9 {
        Some(seq![4usize, 4, 4, 4, 4])
    } else if tag == 10 || tag == 11 {
        Some(seq![4usize, 4, 8])
    } else if tag == 12 || tag == 14 {
        Some(seq![4usize, 4])
    } else if tag == 13 || tag == 16 {
        Some(Seq::empty())
    } else {
        None
    }
}

/// A signed 32-bit value as the unsigned 32-bit pattern it is stored as.
pub open spec fn i32_bits(x: i32) -> u64 {
    if x < 0 {
        (x + 0x1_0000_0000) as u64
    } else {
        x as u64
    }
}

/// The signed 32-bit value stored as the pattern `v`.
pub open spec fn i32_of_bits(v: u64) -> i32 {
    if v >= 0x8000_0000 {
        (v - 0x1_0000_0000) as i32
    } else {
        v as i32
    }
}

/// The fixed fields of a command, in stream order.
pub open spec fn command_fields(c: RenderCommand) -> Seq<u64> {
    match c {
        RenderCommand::SetBindGroup { index, num_dynamic_offsets, bind_group_id } => seq![
            index as u64,
            num_dynamic_offsets as u64,
            bind_group_id.index as u64,
            bind_group_id.epoch as u64,
        ],
        RenderCommand::SetPipeline(id) => seq![id.index as u64, id.epoch as u64],
        RenderCommand::SetIndexBuffer { buffer_id, offset, size } => seq![
            buffer_id.index as u64,
            buffer_id.epoch as u64,
            offset,
            size,
        ],
        RenderCommand::SetVertexBuffer { slot, buffer_id, offset, size } => seq![
            slot as u64,
            buffer_id.index as u64,
            buffer_id.epoch as u64,
            offset,
            size,
        ],
        RenderCommand::SetBlendColor(c) => seq![c.r, c.g, c.b, c.a],
        RenderCommand::SetStencilReference(v) => seq![v as u64],
        RenderCommand::SetViewport { rect, depth_min, depth_max } => seq![
            rect.x as u64,
            rect.y as u64,
            rect.w as u64,
            rect.h as u64,
            depth_min as u64,
            depth_max as u64,
        ],
        RenderCommand::SetScissor(rect) => seq![
            rect.x as u64,
            rect.y as u64,
            rect.w as u64,
            rect.h as u64,
        ],
        RenderCommand::Draw { vertex_count, instance_count, first_vertex, first_instance } => seq![
            vertex_count as u64,
            instance_count as u64,
            first_vertex as u64,
            first_instance as u64,
        ],
        RenderCommand::DrawIndexed {
            index_count,
            instance_count,
            first_index,
            base_vertex,
            first_instance,
        } => seq![
            index_count as u64,
            instance_count as u64,
            first_index as u64,
            i32_bits(base_vertex),
            first_instance as u64,
        ],
        RenderCommand::DrawIndirect { buffer_id, offset } => seq![
            buffer_id.index as u64,
            buffer_id.epoch as u64,
            offset,
        ],
        RenderCommand::DrawIndexedIndirect { buffer_id, offset } => seq![
            buffer_id.index as u64,
            buffer_id.epoch as u64,
            offset,
        ],
        RenderCommand::PushDebugGroup { color, len } => seq![color as u64, len as u64],
        RenderCommand::PopDebugGroup => Seq::empty(),
        RenderCommand::InsertDebugMarker { color, len } => seq![color as u64, len as u64],
        RenderCommand::ExecuteBundle(id) => seq![id.index as u64, id.epoch as u64],
        RenderCommand::End => Seq::empty(),
    }
}

pub open spec fn id_of(fs: Seq<u64>, at: int) -> Id {
    Id { index: fs[at] as u32, epoch: fs[at + 1] as u32 }
}

/// The command of a known tag whose fixed fields are `fs`.
pub open spec fn command_from(tag: u8, fs: Seq<u64>) -> RenderCommand {
    if tag == 0 {
        RenderCommand::SetBindGroup {
            index: fs[0] as u8,
            num_dynamic_offsets: fs[1] as u8,
            bind_group_id: id_of(fs, 2),
        }
    } else if tag == 1 {
        RenderCommand::SetPipeline(id_of(fs, 0))
    } else if tag == 2 {
        RenderCommand::SetIndexBuffer { buffer_id: id_of(fs, 0), offset: fs[2], size: fs[3] }
    } else if tag == 3 {
        RenderCommand::SetVertexBuffer {
            slot: fs[0] as u32,
            buffer_id: id_of(fs, 1),
            offset: fs[3],
            size: fs[4],
        }
    } else if tag == 4 {
        RenderCommand::SetBlendColor(Color { r: fs[0], g: fs[1], b: fs[2], a: fs[3] })
    } else if tag == 5 {
        RenderCommand::SetStencilReference(fs[0] as u32)
    } else if tag == 6 {
        RenderCommand::SetViewport {
            rect: Rect { x: fs[0] as u32, y: fs[1] as u32, w: fs[2] as u32, h: fs[3] as u32 },
            depth_min: fs[4] as u32,
            depth_max: fs[5] as u32,
        }
    } else if tag == 7 {
        RenderCommand::SetScissor(
            Rect { x: fs[0] as u32, y: fs[1] as u32, w: fs[2] as u32, h: fs[3] as u32 },
        )
    } else if tag == 8 {
        RenderCommand::Draw {
            vertex_count: fs[0] as u32,
            instance_count: fs[1] as u32,
            first_vertex: fs[2] as u32,
            first_instance: fs[3] as u32,
        }
    } else if tag == 9 {
        RenderCommand::DrawIndexed {
            index_count: fs[0] as u32,
            instance_count: fs[1] as u32,
            first_index: fs[2] as u32,
            base_vertex: i32_of_bits(fs[3]),
            first_instance: fs[4] as u32,
        }
    } else if tag == 10 {
        RenderCommand::DrawIndirect { buffer_id: id_of(fs, 0), offset: fs[2] }
    } else if tag == 11 {
        RenderCommand::DrawIndexedIndirect { buffer_id: id_of(fs, 0), offset: fs[2] }
    } else if tag == 12 {
        RenderCommand::PushDebugGroup { color: fs[0] as u32, len: fs[1] as u32 }
    } else if tag == 13 {
        RenderCommand::PopDebugGroup
    } else if tag == 14 {
        RenderCommand::InsertDebugMarker { color: fs[0] as u32, len: fs[1] as u32 }
    } else if tag == 15 {
        RenderCommand::ExecuteBundle(id_of(fs, 0))
    } else {
        RenderCommand::End
    }
}

/// The number of trailer bytes that follow a command's record.
pub open spec fn trailer_len(c: RenderCommand) -> nat {
    match c {
        RenderCommand::SetBindGroup { num_dynamic_offsets, .. } => 4 * num_dynamic_offsets as nat,
        RenderCommand::PushDebugGroup { len, .. } => len as nat,
        RenderCommand::InsertDebugMarker { len, .. } => len as nat,
        _ => 0,
    }
}

/// The bytes of a command's record without its trailer.
pub open spec fn command_bytes(c: RenderCommand) -> Seq<u8> {
    seq![command_tag(c)] + fields_bytes(command_fields(c), fixed_widths(command_tag(c))->0)
}

/// Whether `(c, t)` can stand in a stream before its end: not `End`, and with a
/// trailer of the length the record declares.
pub open spec fn record_wf(c: RenderCommand, t: Seq<u8>) -> bool {
    &&& c != RenderCommand::End
    &&& t.len() == trailer_len(c)
}

/// The bytes of the closing record: the `End` tag padded to `MAX_RECORD_SIZE`.
pub open spec fn end_bytes() -> Seq<u8> {
    seq![TAG_END] + Seq::new((MAX_RECORD_SIZE - 1) as nat, |i: int| 0u8)
}

/// The bytes of a list of records, each followed by its trailer.
pub open spec fn records_bytes(items: Seq<(RenderCommand, Seq<u8>)>) -> Seq<u8>
    decreases items.len(),
{
    if items.len() == 0 {
        Seq::empty()
    } else {
        command_bytes(items[0].0) + items[0].1 + records_bytes(items.drop_first())
    }
}

/// The bytes of a whole stream of records, with its closing record.
pub open spec fn stream_bytes(items: Seq<(RenderCommand, Seq<u8>)>) -> Seq<u8> {
    records_bytes(items) + end_bytes()
}

/// The record at the front of `s`: its command, its trailer and the number of bytes
/// it spans.
pub open spec fn parse_record(s: Seq<u8>, offset: usize) -> Result<
    (RenderCommand, Seq<u8>, nat),
    FramingError,
> {
    if s.len() < MAX_RECORD_SIZE {
        Err(FramingError::Truncated { offset })
    } else {
        match fixed_widths(s[0]) {
            None => Err(FramingError::UnknownTag { offset, tag: s[0] }),
            Some(ws) => {
                let c = command_from(s[0], read_fields(s.skip(1), ws));
                let start = 1 + widths_total(ws);
                let end = start + trailer_len(c);
                if end > s.len() {
                    Err(FramingError::TrailerOverrun { offset })
                } else {
                    Ok((c, s.subrange(start as int, end as int), end))
                }
            },
        }
    }
}


/// The records of a stream up to its closing `End` record, or the first framing error;
/// `offset` is where `s` starts in the stream.
pub open spec fn parse_commands(s: Seq<u8>, offset: usize) -> Result<
    Seq<(RenderCommand, Seq<u8>)>,
    FramingError,
>
    decreases s.len(),
{
    match parse_record(s, offset) {
        Err(e) => Err(e),
        Ok((c, t, n)) => {
            if c == RenderCommand::End || n == 0 || n > s.len() {
                Ok(Seq::empty())
            } else {
                match parse_commands(s.skip(n as int), (offset + n) as usize) {
                    Err(e) => Err(e),
                    Ok(rest) => Ok(seq![(c, t)] + rest),
                }
            }
        },
    }
}

proof fn lemma_fixed_widths(tag: u8)
    requires
        fixed_widths(tag) is Some,
    ensures
        widths_total(fixed_widths(tag)->0) + 1 <= MAX_RECORD_SIZE,
        forall|i: int|
            0 <= i < fixed_widths(tag)->0.len() ==> #[trigger] valid_width(
                fixed_widths(tag)->0[i],
            ),
        tag == TAG_END ==> fixed_widths(tag)->0.len() == 0,
{
    reveal_with_fuel(widths_total, 7);
    let ws = fixed_widths(tag)->0;
    assert(widths_total(ws) + 1 <= MAX_RECORD_SIZE);
}

proof fn lemma_command_fields(c: RenderCommand)
    ensures
        fixed_widths(command_tag(c)) is Some,
        fields_fit(command_fields(c), fixed_widths(command_tag(c))->0),
        command_from(command_tag(c), command_fields(c)) == c,
{
    lemma_pow256_values();
    let ws = fixed_widths(command_tag(c))->0;
    let fs = command_fields(c);
    assert(fs.len() == ws.len());
    assert forall|i: int| 0 <= i < ws.len() implies #[trigger] valid_width(ws[i]) by {}
    assert forall|i: int| 0 <= i < ws.len() implies (fs[i] as nat) < #[trigger] pow256(
        ws[i] as nat,
    ) by {}
}

/// A record followed by at least enough bytes for the framing check reads back as
/// itself.
pub proof fn lemma_record_round_trip(c: RenderCommand, t: Seq<u8>, rest: Seq<u8>, offset: usize)
    requires
        record_wf(c, t),
        (command_bytes(c) + t + rest).len() >= MAX_RECORD_SIZE,
    ensures
        parse_record(command_bytes(c) + t + rest, offset) == Ok::<
            (RenderCommand, Seq<u8>, nat),
            FramingError,
        >((c, t, command_bytes(c).len() + t.len())),
        command_bytes(c).len() <= MAX_RECORD_SIZE,
{
    let tag = command_tag(c);
    lemma_command_fields(c);
    lemma_fixed_widths(tag);
    let ws = fixed_widths(tag)->0;
    let fb = fields_bytes(command_fields(c), ws);
    let s = command_bytes(c) + t + rest;
    lemma_fields_round_trip(command_fields(c), ws, t + rest);
    assert(s[0] == tag);
    assert(s.skip(1) =~= fb + (t + rest));
    let start = 1 + widths_total(ws);
    assert(s.subrange(start as int, (start + t.len()) as int) =~= t);
}

pub proof fn lemma_stream_len(items: Seq<(RenderCommand, Seq<u8>)>)
    ensures
        stream_bytes(items).len() >= MAX_RECORD_SIZE,
    decreases items.len(),
{
    assert(stream_bytes(items).len() >= end_bytes().len());
}

/// Reading back the bytes of a stream of well-formed records gives those records,
/// in order; trailers of any length, empty ones included, come back whole.
pub proof fn lemma_stream_round_trip(items: Seq<(RenderCommand, Seq<u8>)>, offset: usize)
    requires
        forall|i: int| 0 <= i < items.len() ==> record_wf(#[trigger] items[i].0, items[i].1),
    ensures
        parse_commands(stream_bytes(items), offset) == Ok::<
            Seq<(RenderCommand, Seq<u8>)>,
            FramingError,
        >(items),
    decreases items.len(),
{
    let s = stream_bytes(items);
    if items.len() == 0 {
        assert(s =~= end_bytes());
        lemma_fixed_widths(TAG_END);
        assert(s[0] == TAG_END);
        assert(command_from(TAG_END, read_fields(s.skip(1), Seq::empty())) == RenderCommand::End);
        assert(parse_record(s, offset) is Ok);
        assert(items =~= Seq::<(RenderCommand, Seq<u8>)>::empty());
    } else {
        let (c, t) = items[0];
        assert(record_wf(items[0].0, items[0].1));
        let rest = stream_bytes(items.drop_first());
        lemma_stream_len(items.drop_first());
        assert(s =~= command_bytes(c) + t + rest);
        lemma_record_round_trip(c, t, rest, offset);
        let n = command_bytes(c).len() + t.len();
        assert(s.skip(n as int) =~= rest);
        assert forall|i: int| 0 <= i < items.len() - 1 implies record_wf(
            #[trigger] items.drop_first()[i].0,
            items.drop_first()[i].1,
        ) by {
            assert(record_wf(items[i + 1].0, items[i + 1].1));
        }
        lemma_stream_round_trip(items.drop_first(), (offset + n) as usize);
        assert(seq![(c, t)] + items.drop_first() =~= items);
    }
}


/// A decoded record: a command and the bytes of its trailer.
#[derive(Clone, Debug)]
pub struct Record {
    pub command: RenderCommand,
    pub trailer: Vec<u8>,
}

impl View for Record {
    type V = (RenderCommand, Seq<u8>);

    open spec fn view(&self) -> (RenderCommand, Seq<u8>) {
        (self.command, self.trailer@)
    }
}

impl RenderCommand {
    /// The tag that opens this command's record.
    pub fn tag(&self) -> (r: u8)
        ensures
            r == command_tag(*self),
    {
        match self {
            RenderCommand::SetBindGroup { .. } => 0,
            RenderCommand::SetPipeline(..) => 1,
            RenderCommand::SetIndexBuffer { .. } => 2,
            RenderCommand::SetVertexBuffer { .. } => 3,
            RenderCommand::SetBlendColor(..) => 4,
            RenderCommand::SetStencilReference(..) => 5,
            RenderCommand::SetViewport { .. } => 6,
            RenderCommand::SetScissor(..) => 7,
            RenderCommand::Draw { .. } => 8,
            RenderCommand::DrawIndexed { .. } => 9,
            RenderCommand::DrawIndirect { .. } => 10,
            RenderCommand::DrawIndexedIndirect { .. } => 11,
            RenderCommand::PushDebugGroup { .. } => 12,
            RenderCommand::PopDebugGroup => 13,
            RenderCommand::InsertDebugMarker { .. } => 14,
            RenderCommand::ExecuteBundle(..) => 15,
            RenderCommand::End => 16,
        }
    }

    /// The fixed fields of this command, in stream order.
    fn fields(&self) -> (r: Vec<u64>)
        ensures
            r@ == command_fields(*self),
    {
        let r = match *self {
            RenderCommand::SetBindGroup { index, num_dynamic_offsets, bind_group_id } => vec![
                index as u64,
                num_dynamic_offsets as u64,
                bind_group_id.index as u64,
                bind_group_id.epoch as u64,
            ],
            RenderCommand::SetPipeline(id) => vec![id.index as u64, id.epoch as u64],
            RenderCommand::SetIndexBuffer { buffer_id, offset, size } => vec![
                buffer_id.index as u64,
                buffer_id.epoch as u64,
                offset,
                size,
            ],
            RenderCommand::SetVertexBuffer { slot, buffer_id, offset, size } => vec![
                slot as u64,
                buffer_id.index as u64,
                buffer_id.epoch as u64,
                offset,
                size,
            ],
            RenderCommand::SetBlendColor(c) => vec![c.r, c.g, c.b, c.a],
            RenderCommand::SetStencilReference(v) => vec![v as u64],
            RenderCommand::SetViewport { rect, depth_min, depth_max } => vec![
                rect.x as u64,
                rect.y as u64,
                rect.w as u64,
                rect.h as u64,
                depth_min as u64,
                depth_max as u64,
            ],
            RenderCommand::SetScissor(rect) => vec![
                rect.x as u64,
                rect.y as u64,
                rect.w as u64,
                rect.h as u64,
            ],
            RenderCommand::Draw { vertex_count, instance_count, first_vertex, first_instance } => {
                vec![
                    vertex_count as u64,
                    instance_count as u64,
                    first_vertex as u64,
                    first_instance as u64,
                ]
            },
            RenderCommand::DrawIndexed {
                index_count,
                instance_count,
                first_index,
                base_vertex,
                first_instance,
            } => {
                let bits: u64 = if base_vertex < 0 {
                    (base_vertex as i64 + 0x1_0000_0000i64) as u64
                } else {
                    base_vertex as u64
                };
                vec![
                    index_count as u64,
                    instance_count as u64,
                    first_index as u64,
                    bits,
                    first_instance as u64,
                ]
            },
            RenderCommand::DrawIndirect { buffer_id, offset } => vec![
                buffer_id.index as u64,
                buffer_id.epoch as u64,
                offset,
            ],
            RenderCommand::DrawIndexedIndirect { buffer_id, offset } => vec![
                buffer_id.index as u64,
                buffer_id.epoch as u64,
                offset,
            ],
            RenderCommand::PushDebugGroup { color, len } => vec![color as u64, len as u64],
            RenderCommand::PopDebugGroup => Vec::new(),
            RenderCommand::InsertDebugMarker { color, len } => vec![color as u64, len as u64],
            RenderCommand::ExecuteBundle(id) => vec![id.index as u64, id.epoch as u64],
            RenderCommand::End => Vec::new(),
        };
        assert(r@ =~= command_fields(*self));
        r
    }

    /// The number of trailer bytes that follow this command's record.
    pub fn trailer_len(&self) -> (r: usize)
        ensures
            r == trailer_len(*self),
    {
        match *self {
            RenderCommand::SetBindGroup { num_dynamic_offsets, .. } => 4 * num_dynamic_offsets as usize,
            RenderCommand::PushDebugGroup { len, .. } => len as usize,
            RenderCommand::InsertDebugMarker { len, .. } => len as usize,
            _ => 0,
        }
    }
}

/// The widths of the fixed fields that follow `tag`, or `None` for an unknown tag.
fn widths_for(tag: u8) -> (r: Option<Vec<usize>>)
    ensures
        match fixed_widths(tag) {
            None => r is None,
            Some(ws) => r is Some && r->0@ == ws,
        },
{
    let r = if tag == 0 {
        Some(vec![1usize, 1, 4, 4])
    } else if tag == 1 || tag == 15 {
        Some(vec![4usize, 4])
    } else if tag == 2 {
        Some(vec![4usize, 4, 8, 8])
    } else if tag == 3 {
        Some(vec![4usize, 4, 4, 8, 8])
    } else if tag == 4 {
        Some(vec![8usize, 8, 8, 8])
    } else if tag == 5 {
        Some(vec![4usize])
    } else if tag == 6 {
        Some(vec![4usize, 4, 4, 4, 4, 4])
    } else if tag == 7 || tag == 8 {
        Some(vec![4usize, 4, 4, 4])
    } else if tag == 9 {
        Some(vec![4usize, 4, 4, 4, 4])
    } else if tag == 10 || tag == 11 {
        Some(vec![4usize, 4, 8])
    } else if tag == 12 || tag == 14 {
        Some(vec![4usize, 4])
    } else if tag == 13 || tag == 16 {
        Some(Vec::new())
    } else {
        None
    };
    proof {
        if r is Some {
            assert(r->0@ =~= fixed_widths(tag)->0);
        }
    }
    r
}

fn id_at(fs: &Vec<u64>, at: usize) -> (r: Id)
    requires
        at < 8,
        at + 1 < fs@.len(),
    ensures
        r == id_of(fs@, at as int),
{
    Id { index: fs[at] as u32, epoch: fs[at + 1] as u32 }
}

/// The command of a known tag whose fixed fields are `fs`.
fn command_of(tag: u8, fs: &Vec<u64>) -> (r: RenderCommand)
    requires
        fixed_widths(tag) is Some,
        fs@.len() == fixed_widths(tag)->0.len(),
    ensures
        r == command_from(tag, fs@),
{
    if tag == 0 {
        RenderCommand::SetBindGroup {
            index: fs[0] as u8,
            num_dynamic_offsets: fs[1] as u8,
            bind_group_id: id_at(fs, 2),
        }
    } else if tag == 1 {
        RenderCommand::SetPipeline(id_at(fs, 0))
    } else if tag == 2 {
        RenderCommand::SetIndexBuffer { buffer_id: id_at(fs, 0), offset: fs[2], size: fs[3] }
    } else if tag == 3 {
        RenderCommand::SetVertexBuffer {
            slot: fs[0] as u32,
            buffer_id: id_at(fs, 1),
            offset: fs[3],
            size: fs[4],
        }
    } else if tag == 4 {
        RenderCommand::SetBlendColor(Color { r: fs[0], g: fs[1], b: fs[2], a: fs[3] })
    } else if tag == 5 {
        RenderCommand::SetStencilReference(fs[0] as u32)
    } else if tag == 6 {
        RenderCommand::SetViewport {
            rect: Rect { x: fs[0] as u32, y: fs[1] as u32, w: fs[2] as u32, h: fs[3] as u32 },
            depth_min: fs[4] as u32,
            depth_max: fs[5] as u32,
        }
    } else if tag == 7 {
        RenderCommand::SetScissor(
            Rect { x: fs[0] as u32, y: fs[1] as u32, w: fs[2] as u32, h: fs[3] as u32 },
        )
    } else if tag == 8 {
        RenderCommand::Draw {
            vertex_count: fs[0] as u32,
            instance_count: fs[1] as u32,
            first_vertex: fs[2] as u32,
            first_instance: fs[3] as u32,
        }
    } else if tag == 9 {
        let v = fs[3];
        let base_vertex: i32 = if v >= 0x8000_0000 {
            (v as i128 - 0x1_0000_0000i128) as i32
        } else {
            v as i32
        };
        RenderCommand::DrawIndexed {
            index_count: fs[0] as u32,
            instance_count: fs[1] as u32,
            first_index: fs[2] as u32,
            base_vertex,
            first_instance: fs[4] as u32,
        }
    } else if tag == 10 {
        RenderCommand::DrawIndirect { buffer_id: id_at(fs, 0), offset: fs[2] }
    } else if tag == 11 {
        RenderCommand::DrawIndexedIndirect { buffer_id: id_at(fs, 0), offset: fs[2] }
    } else if tag == 12 {
        RenderCommand::PushDebugGroup { color: fs[0] as u32, len: fs[1] as u32 }
    } else if tag == 13 {
        RenderCommand::PopDebugGroup
    } else if tag == 14 {
        RenderCommand::InsertDebugMarker { color: fs[0] as u32, len: fs[1] as u32 }
    } else if tag == 15 {
        RenderCommand::ExecuteBundle(id_at(fs, 0))
    } else {
        RenderCommand::End
    }
}

/// Appends the record of `c`, without its trailer.
pub fn encode_command(out: &mut Vec<u8>, c: &RenderCommand)
    ensures
        final(out)@ == old(out)@ + command_bytes(*c),
{
    let tag = c.tag();
    let fs = c.fields();
    let ws = widths_for(tag);
    proof {
        lemma_command_fields(*c);
    }
    let ws = ws.unwrap();
    out.push(tag);
    write_fields(out, &fs, &ws);
    assert(out@ =~= old(out)@ + command_bytes(*c));
}

/// Appends the bytes of `b`.
pub fn encode_bytes(out: &mut Vec<u8>, b: &[u8])
    ensures
        final(out)@ == old(out)@ + b@,
{
    let mut i: usize = 0;
    while i < b.len()
        invariant
            i <= b@.len(),
            out@ == old(out)@ + b@.take(i as int),
        decreases b@.len() - i,
    {
        out.push(b[i]);
        i = i + 1;
        assert(out@ =~= old(out)@ + b@.take(i as int));
    }
    assert(b@.take(i as int) =~= b@);
}

/// Copies `data[start..end]`.
fn copy_range(data: &[u8], start: usize, end: usize) -> (r: Vec<u8>)
    requires
        start <= end <= data@.len(),
    ensures
        r@ == data@.subrange(start as int, end as int),
{
    let mut r: Vec<u8> = Vec::new();
    let mut i: usize = start;
    while i < end
        invariant
            start <= i <= end,
            end <= data@.len(),
            r@ == data@.subrange(start as int, i as int),
        decreases end - i,
    {
        r.push(data[i]);
        i = i + 1;
        assert(r@ =~= data@.subrange(start as int, i as int));
    }
    r
}

/// Reads the record that starts at `pos`, checking that `MAX_RECORD_SIZE` bytes
/// remain before it reads, and that the trailer ends within the stream.
/// Returns the command, its trailer and the position after the record.
pub fn decode_record(data: &[u8], pos: usize) -> (r: Result<(RenderCommand, Vec<u8>, usize), FramingError>)
    requires
        pos <= data@.len(),
    ensures
        match parse_record(data@.skip(pos as int), pos) {
            Ok((c, t, n)) => r is Ok && r->Ok_0.0 == c && r->Ok_0.1@ == t && r->Ok_0.2 == pos + n,
            Err(e) => r is Err && r->Err_0 == e,
        },
{
    let ghost s = data@.skip(pos as int);
    let len = data.len();
    if len - pos < MAX_RECORD_SIZE {
        return Err(FramingError::Truncated { offset: pos });
    }
    let tag = data[pos];
    let ws = match widths_for(tag) {
        None => {
            return Err(FramingError::UnknownTag { offset: pos, tag });
        },
        Some(ws) => ws,
    };
    proof {
        lemma_fixed_widths(tag);
    }
    let fs = read_fields_at(data, pos + 1, &ws);
    assert(data@.skip(pos + 1) =~= s.skip(1));
    let c = command_of(tag, &fs);
    let start = pos + 1 + fixed_total(&ws);
    let tl = c.trailer_len();
    if tl > len - start {
        return Err(FramingError::TrailerOverrun { offset: pos });
    }
    let end = start + tl;
    let t = copy_range(data, start, end);
    assert(t@ =~= s.subrange(start - pos, end - pos));
    Ok((c, t, end))
}

/// The total width of the fields of widths `ws`.
fn fixed_total(ws: &Vec<usize>) -> (r: usize)
    requires
        widths_total(ws@) <= MAX_RECORD_SIZE,
    ensures
        r == widths_total(ws@),
{
    let mut total: usize = 0;
    let mut i: usize = 0;
    assert(ws@.skip(0) =~= ws@);
    while i < ws.len()
        invariant
            i <= ws@.len(),
            widths_total(ws@) <= MAX_RECORD_SIZE,
            total + widths_total(ws@.skip(i as int)) == widths_total(ws@),
        decreases ws@.len() - i,
    {
        assert(ws@.skip(i as int).drop_first() =~= ws@.skip(i + 1));
        total = total + ws[i];
        i = i + 1;
    }
    total
}


/// The views of a list of records.
pub open spec fn records_view(rs: Seq<Record>) -> Seq<(RenderCommand, Seq<u8>)> {
    rs.map_values(|r: Record| r@)
}

/// Reads every record from `start` up to the closing `End` record.
pub fn decode_commands(data: &[u8], start: usize) -> (r: Result<Vec<Record>, FramingError>)
    requires
        start <= data@.len(),
    ensures
        match parse_commands(data@.skip(start as int), start) {
            Ok(items) => r is Ok && records_view(r->Ok_0@) == items,
            Err(e) => r is Err && r->Err_0 == e,
        },
{
    let mut out: Vec<Record> = Vec::new();
    let mut pos: usize = start;
    let len = data.len();
    assert(records_view(out@) =~= Seq::<(RenderCommand, Seq<u8>)>::empty());
    assert(parse_commands(data@.skip(start as int), start) == match parse_commands(
        data@.skip(pos as int),
        pos,
    ) {
        Ok(rest) => Ok(records_view(out@) + rest),
        Err(e) => Err(e),
    }) by {
        assert(Seq::<(RenderCommand, Seq<u8>)>::empty() + Seq::<(RenderCommand, Seq<u8>)>::empty() =~= Seq::<(RenderCommand, Seq<u8>)>::empty());
        match parse_commands(data@.skip(start as int), start) {
            Ok(rest) => {
                assert(records_view(out@) + rest =~= rest);
            },
            Err(e) => {},
        }
    }
    loop
        invariant
            start <= pos <= data@.len(),
            len == data@.len(),
            parse_commands(data@.skip(start as int), start) == match parse_commands(
                data@.skip(pos as int),
                pos,
            ) {
                Ok(rest) => Ok(records_view(out@) + rest),
                Err(e) => Err::<Seq<(RenderCommand, Seq<u8>)>, FramingError>(e),
            },
        decreases data@.len() - pos,
    {
        let ghost s = data@.skip(pos as int);
        match decode_record(data, pos) {
            Err(e) => {
                return Err(e);
            },
            Ok((c, t, next)) => {
                if c == RenderCommand::End {
                    assert(records_view(out@) + Seq::<(RenderCommand, Seq<u8>)>::empty()
                        =~= records_view(out@));
                    return Ok(out);
                }
                let ghost n = (next - pos) as nat;
                assert(s.skip(n as int) =~= data@.skip(next as int));
                let ghost before = records_view(out@);
                let rec = Record { command: c, trailer: t };
                out.push(rec);
                proof {
                    assert(records_view(out@) =~= before.push((c, rec.trailer@)));
                    match parse_commands(data@.skip(next as int), next) {
                        Ok(rest) => {
                            assert(before + (seq![(c, rec.trailer@)] + rest) =~= records_view(
                                out@,
                            ) + rest);
                        },
                        Err(e) => {},
                    }
                }
                pos = next;
            },
        }
    }
}

} // verus!
