//! Recording a render pass into its command stream.
use vstd::prelude::*;
use crate::bytes::{
    le_bytes, le_value, lemma_le_bytes_len, lemma_le_round_trip, lemma_pow256_values, write_le,
};
use crate::codec::{
    command_bytes, encode_bytes, encode_command, end_bytes, lemma_stream_round_trip,
    parse_commands, record_wf, stream_bytes, FramingError, RenderCommand, MAX_RECORD_SIZE, TAG_END,
};
use crate::targets::{encode_targets, lemma_targets_round_trip, parse_targets, targets_bytes, TARGETS_SIZE};
use crate::types::{
    ColorAttachmentDescriptor, DepthStencilAttachmentDescriptor, RenderPassDescriptor,
    MAX_COLOR_TARGETS,
};

verus! {

/// The trailer bytes of a list of dynamic offsets: four little-endian bytes each.
pub open spec fn offsets_bytes(os: Seq<u32>) -> Seq<u8>
    decreases os.len(),
{
    if os.len() == 0 {
        Seq::empty()
    } else {
        le_bytes(os[0] as nat, 4) + offsets_bytes(os.drop_first())
    }
}

/// The dynamic offsets that a trailer holds: one for each four little-endian bytes.
pub open spec fn offsets_from(t: Seq<u8>) -> Seq<u32> {
    Seq::new(t.len() / 4, |k: int| le_value(t.subrange(4 * k, 4 * k + 4)) as u32)
}

/// Reading back the trailer of a list of dynamic offsets gives the list.
pub proof fn lemma_offsets_round_trip(os: Seq<u32>)
    ensures
        offsets_bytes(os).len() == 4 * os.len(),
        offsets_from(offsets_bytes(os)) == os,
    decreases os.len(),
{
    if os.len() > 0 {
        lemma_offsets_round_trip(os.drop_first());
        lemma_pow256_values();
        lemma_le_bytes_len(os[0] as nat, 4);
        lemma_le_round_trip(os[0] as nat, 4);
        let head = le_bytes(os[0] as nat, 4);
        let tail = offsets_bytes(os.drop_first());
        let t = offsets_bytes(os);
        assert(t == head + tail);
        assert forall|k: int| 0 <= k < os.len() implies #[trigger] offsets_from(t)[k] == os[k] by {
            if k == 0 {
                assert(t.subrange(0, 4) =~= head);
            } else {
                assert(t.subrange(4 * k, 4 * k + 4) =~= tail.subrange(4 * (k - 1), 4 * (k - 1) + 4));
                assert(offsets_from(tail)[k - 1] == os.drop_first()[k - 1]);
            }
        }
        assert(offsets_from(t) =~= os);
    } else {
        assert(offsets_from(offsets_bytes(os)) =~= os);
    }
}

/// The number of dynamic offsets that the commands `cs` take from the offset list.
pub open spec fn offsets_needed(cs: Seq<RenderCommand>) -> nat
    decreases cs.len(),
{
    if cs.len() == 0 {
        0
    } else {
        offsets_of(cs[0]) + offsets_needed(cs.drop_first())
    }
}

pub open spec fn offsets_of(c: RenderCommand) -> nat {
    match c {
        RenderCommand::SetBindGroup { num_dynamic_offsets, .. } => num_dynamic_offsets as nat,
        _ => 0,
    }
}

/// The bytes of the commands `cs`, each `SetBindGroup` followed by as many offsets as
/// it declares, taken in order from `os`.
pub open spec fn fill_bytes(cs: Seq<RenderCommand>, os: Seq<u32>) -> Seq<u8>
    decreases cs.len(),
{
    if cs.len() == 0 {
        Seq::empty()
    } else {
        let n = offsets_of(cs[0]) as int;
        command_bytes(cs[0]) + offsets_bytes(os.take(n)) + fill_bytes(cs.drop_first(), os.skip(n))
    }
}

/// A whole recorded pass reads back as itself: the header gives its attachments, and
/// the records after the header give its commands with their trailers, in order.
pub proof fn lemma_pass_round_trip(
    colors: Seq<ColorAttachmentDescriptor>,
    depth_stencil: Option<DepthStencilAttachmentDescriptor>,
    items: Seq<(RenderCommand, Seq<u8>)>,
)
    requires
        colors.len() <= MAX_COLOR_TARGETS,
        forall|i: int| 0 <= i < items.len() ==> record_wf(#[trigger] items[i].0, items[i].1),
    ensures
        parse_targets(targets_bytes(colors, depth_stencil) + stream_bytes(items)) == Ok::<
            (Seq<ColorAttachmentDescriptor>, Option<DepthStencilAttachmentDescriptor>),
            FramingError,
        >((colors, depth_stencil)),
        parse_commands(
            (targets_bytes(colors, depth_stencil) + stream_bytes(items)).skip(TARGETS_SIZE as int),
            TARGETS_SIZE,
        ) == Ok::<Seq<(RenderCommand, Seq<u8>)>, FramingError>(items),
{
    lemma_targets_round_trip(colors, depth_stencil, stream_bytes(items));
    let all = targets_bytes(colors, depth_stencil) + stream_bytes(items);
    assert(all.skip(TARGETS_SIZE as int) =~= stream_bytes(items));
    lemma_stream_round_trip(items, TARGETS_SIZE);
}

/// A render pass being recorded: the bytes written so far and the encoder that owns it.
pub struct RawPass<P> {
    data: Vec<u8>,
    parent: P,
}

impl<P: Copy> RawPass<P> {
    /// The bytes recorded so far.
    pub closed spec fn bytes(&self) -> Seq<u8> {
        self.data@
    }

    /// The encoder that owns the pass.
    pub closed spec fn owner(&self) -> P {
        self.parent
    }

    /// Starts a pass for `parent` whose stream opens with the attachments of `desc`.
    pub fn new_render(parent: P, desc: &RenderPassDescriptor) -> (r: Self)
        requires
            desc.color_attachments@.len() <= MAX_COLOR_TARGETS,
        ensures
            r.bytes() == targets_bytes(desc.color_attachments@, desc.depth_stencil_attachment),
            r.owner() == parent,
    {
        let mut data: Vec<u8> = Vec::new();
        encode_targets(&mut data, desc);
        assert(data@ =~= targets_bytes(desc.color_attachments@, desc.depth_stencil_attachment));
        RawPass { data, parent }
    }

    /// The bytes recorded so far.
    pub fn as_slice(&self) -> (r: &[u8])
        ensures
            r@ == self.bytes(),
    {
        self.data.as_slice()
    }

    /// Appends the record of `command`, without a trailer.
    pub fn encode(&mut self, command: &RenderCommand)
        ensures
            final(self).bytes() == old(self).bytes() + command_bytes(*command),
            final(self).owner() == old(self).owner(),
    {
        encode_command(&mut self.data, command);
    }

    /// Appends dynamic offsets as a trailer.
    pub fn encode_offsets(&mut self, offsets: &[u32])
        ensures
            final(self).bytes() == old(self).bytes() + offsets_bytes(offsets@),
            final(self).owner() == old(self).owner(),
    {
        let mut i: usize = 0;
        assert(offsets@.skip(0) =~= offsets@);
        while i < offsets.len()
            invariant
                i <= offsets@.len(),
                self.owner() == old(self).owner(),
                self.bytes() + offsets_bytes(offsets@.skip(i as int)) == old(self).bytes()
                    + offsets_bytes(offsets@),
            decreases offsets@.len() - i,
        {
            let ghost before = self.data@;
            let ghost tail = offsets_bytes(offsets@.skip(i + 1));
            assert(offsets@.skip(i as int).drop_first() =~= offsets@.skip(i + 1));
            proof {
                lemma_pow256_values();
            }
            write_le(&mut self.data, offsets[i] as u64, 4);
            assert(before + (le_bytes(offsets@[i as int] as nat, 4) + tail) =~= self.data@ + tail);
            i = i + 1;
        }
        assert(offsets_bytes(offsets@.skip(i as int)) =~= Seq::<u8>::empty());
        assert(self.data@ + Seq::<u8>::empty() =~= self.data@);
    }

    /// Appends raw bytes as a trailer.
    pub fn encode_slice(&mut self, bytes: &[u8])
        ensures
            final(self).bytes() == old(self).bytes() + bytes@,
            final(self).owner() == old(self).owner(),
    {
        encode_bytes(&mut self.data, bytes);
    }

    /// Appends the commands in order; each `SetBindGroup` takes its dynamic offsets from
    /// the front of what is left of `offsets`.
    pub fn fill_render_commands(&mut self, commands: &[RenderCommand], offsets: &[u32])
        requires
            offsets_needed(commands@) <= offsets@.len(),
        ensures
            final(self).bytes() == old(self).bytes() + fill_bytes(commands@, offsets@),
            final(self).owner() == old(self).owner(),
    {
        let mut i: usize = 0;
        let mut used: usize = 0;
        let olen = offsets.len();
        assert(commands@.skip(0) =~= commands@);
        assert(offsets@.skip(0) =~= offsets@);
        while i < commands.len()
            invariant
                i <= commands@.len(),
                used <= offsets@.len(),
                olen == offsets@.len(),
                offsets_needed(commands@.skip(i as int)) <= offsets@.len() - used,
                self.owner() == old(self).owner(),
                self.bytes() + fill_bytes(commands@.skip(i as int), offsets@.skip(used as int))
                    == old(self).bytes() + fill_bytes(commands@, offsets@),
            decreases commands@.len() - i,
        {
            let c = commands[i];
            let ghost cs = commands@.skip(i as int);
            let ghost os = offsets@.skip(used as int);
            assert(cs.drop_first() =~= commands@.skip(i + 1));
            assert(cs[0] == c);
            let n: usize = match c {
                RenderCommand::SetBindGroup { num_dynamic_offsets, .. } => num_dynamic_offsets as usize,
                _ => 0,
            };
            assert(n == offsets_of(c));
            assert(offsets_needed(cs) == offsets_of(c) + offsets_needed(cs.drop_first()));
            assert(n <= offsets@.len() - used);
            let ghost before = self.data@;
            self.encode(&c);
            let part = slice_range(offsets, used, used + n);
            assert(part@ =~= os.take(n as int));
            self.encode_offsets(part);
            assert(os.skip(n as int) =~= offsets@.skip(used + n));
            let ghost tail = fill_bytes(commands@.skip(i + 1), offsets@.skip(used + n));
            assert(before + (command_bytes(c) + offsets_bytes(os.take(n as int)) + tail)
                =~= self.data@ + tail);
            used = used + n;
            i = i + 1;
        }
        assert(fill_bytes(commands@.skip(i as int), offsets@.skip(used as int)) =~= Seq::<u8>::empty());
        assert(self.data@ + Seq::<u8>::empty() =~= self.data@);
    }

    /// Closes the stream with the padded `End` record.
    pub fn finish(&mut self)
        ensures
            final(self).bytes() == old(self).bytes() + end_bytes(),
            final(self).owner() == old(self).owner(),
    {
        self.data.push(TAG_END);
        let mut k: usize = 1;
        while k < MAX_RECORD_SIZE
            invariant
                1 <= k <= MAX_RECORD_SIZE,
                self.owner() == old(self).owner(),
                self.data@ == old(self).data@ + seq![TAG_END] + Seq::new((k - 1) as nat, |j: int| 0u8),
            decreases MAX_RECORD_SIZE - k,
        {
            self.data.push(0);
            k = k + 1;
            assert(self.data@ =~= old(self).data@ + seq![TAG_END] + Seq::new((k - 1) as nat, |j: int| 0u8));
        }
        assert(self.data@ =~= old(self).data@ + end_bytes());
    }

    /// Closes the stream and hands out its bytes with the encoder that owns it.
    pub fn finish_render(self) -> (r: (Vec<u8>, P))
        ensures
            r.0@ == self.bytes() + end_bytes(),
            r.1 == self.owner(),
    {
        let mut pass = self;
        pass.finish();
        (pass.data, pass.parent)
    }
}

/// `s[start..end]`.
fn slice_range(s: &[u32], start: usize, end: usize) -> (r: &[u32])
    requires
        start <= end <= s@.len(),
    ensures
        r@ == s@.subrange(start as int, end as int),
{
    let (_, right) = s.split_at(start);
    let (mid, _) = right.split_at(end - start);
    assert(mid@ =~= s@.subrange(start as int, end as int));
    mid
}

} // verus!
