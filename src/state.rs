//! The draw-state machine of a render pass: what is bound, what the bound pipeline
//! requires, and the limits that draws are checked against.
use vstd::prelude::*;
use crate::slots::{slots_clear, slots_get, slots_len, slots_new, slots_of, VertexSlots};
use crate::types::{Id, IndexFormat, InputStepMode};

verus! {

/// Whether a piece of draw state is needed by a pipeline and whether it was supplied.
/// It moves from `Unused` to `Required` to `Supplied`, and never back to `Unused`.
#[derive(PartialEq, Eq, Structural, Clone, Copy, Debug)]
pub enum OptionalState {
    Unused,
    Required,
    Supplied,
}

impl OptionalState {
    /// Marks the state as required when `require` holds and it was unused;
    /// a state that is already required or supplied is left as it is.
    pub fn require(&mut self, require: bool)
        ensures
            *final(self) == (if require && *old(self) == OptionalState::Unused {
                OptionalState::Required
            } else {
                *old(self)
            }),
    {
        if require && *self == OptionalState::Unused {
            *self = OptionalState::Required;
        }
    }
}

/// Why a draw cannot be issued.
#[derive(PartialEq, Eq, Structural, Clone, Copy, Debug)]
pub enum DrawError {
    MissingBlendColor,
    MissingStencilReference,
    MissingPipeline,
    /// The bind group at `index` does not match the layout the pipeline expects there;
    /// `index` is the first such slot.
    IncompatibleBindGroup { index: u32 },
}

impl DrawError {
    /// A sentence that tells the caller what to fix.
    pub fn message(&self) -> (r: &'static str)
        ensures
            r@ == match self {
                DrawError::MissingBlendColor => "MissingBlendColor. A blend color is required to be set using RenderPass::set_blend_color."@,
                DrawError::MissingStencilReference => "MissingStencilReference. A stencil reference is required to be set using RenderPass::set_stencil_reference."@,
                DrawError::MissingPipeline => "MissingPipeline. You must first set the render pipeline using RenderPass::set_pipeline."@,
                DrawError::IncompatibleBindGroup { .. } => "IncompatibleBindGroup. The current render pipeline has a layout which is incompatible with a currently set bind group."@,
            },
    {
        match self {
            DrawError::MissingBlendColor => "MissingBlendColor. A blend color is required to be set using RenderPass::set_blend_color.",
            DrawError::MissingStencilReference => "MissingStencilReference. A stencil reference is required to be set using RenderPass::set_stencil_reference.",
            DrawError::MissingPipeline => "MissingPipeline. You must first set the render pipeline using RenderPass::set_pipeline.",
            DrawError::IncompatibleBindGroup { .. } => "IncompatibleBindGroup. The current render pipeline has a layout which is incompatible with a currently set bind group.",
        }
    }
}

/// The number of bytes of one index of `format`.
pub open spec fn index_size(format: IndexFormat) -> u64 {
    match format {
        IndexFormat::Uint16 => 2,
        IndexFormat::Uint32 => 4,
    }
}

/// The bound index buffer: its id and byte range, the element format, and the number
/// of indices the range holds.
#[derive(Clone, Copy, Debug)]
pub struct IndexState {
    pub bound_buffer_view: Option<(Id, u64, u64)>,
    pub format: IndexFormat,
    pub limit: u64,
}

/// The number of whole indices of `format` that the bound range holds; none when
/// nothing is bound.
pub open spec fn index_limit(view: Option<(Id, u64, u64)>, format: IndexFormat) -> u64 {
    match view {
        Some((_, start, end)) => ((end - start) as u64 / index_size(format)) as u64,
        None => 0,
    }
}

impl IndexState {
    pub open spec fn wf(&self) -> bool {
        match self.bound_buffer_view {
            Some((_, start, end)) => start <= end,
            None => true,
        }
    }

    pub fn new() -> (r: Self)
        ensures
            r.bound_buffer_view is None,
            r.format == IndexFormat::Uint32,
            r.limit == 0,
    {
        IndexState { bound_buffer_view: None, format: IndexFormat::Uint32, limit: 0 }
    }

    /// Recomputes the limit from the bound range and the format.
    pub fn update_limit(&mut self)
        requires
            old(self).wf(),
        ensures
            final(self).limit == index_limit(old(self).bound_buffer_view, old(self).format),
            final(self).bound_buffer_view == old(self).bound_buffer_view,
            final(self).format == old(self).format,
    {
        self.limit = match self.bound_buffer_view {
            Some((_, start, end)) => {
                let size: u64 = match self.format {
                    IndexFormat::Uint16 => 2,
                    IndexFormat::Uint32 => 4,
                };
                (end - start) / size
            },
            None => 0,
        };
    }

    /// Unbinds the index buffer.
    pub fn reset(&mut self)
        ensures
            final(self).bound_buffer_view is None,
            final(self).limit == 0,
            final(self).format == old(self).format,
    {
        self.bound_buffer_view = None;
        self.limit = 0;
    }
}

/// One vertex buffer slot: the bytes bound there, the stride the pipeline reads them
/// with (zero for a slot it does not use), and whether it steps per vertex or per
/// instance.
#[derive(PartialEq, Eq, Structural, Clone, Copy, Debug)]
pub struct VertexBufferState {
    pub total_size: u64,
    pub stride: u64,
    pub rate: InputStepMode,
}

impl VertexBufferState {
    /// A slot that nothing is bound to.
    pub fn empty() -> (r: Self)
        ensures
            r == (VertexBufferState { total_size: 0, stride: 0, rate: InputStepMode::Vertex }),
    {
        VertexBufferState { total_size: 0, stride: 0, rate: InputStepMode::Vertex }
    }
}

/// The largest value a limit takes: no slot bounds it.
pub const NO_LIMIT: u64 = 0xffff_ffff_ffff_ffff;

/// The least `total_size / stride` over the slots of `inputs` with a non-zero stride
/// and step mode `rate`; `NO_LIMIT` when there is none.
pub open spec fn rate_limit(inputs: Seq<VertexBufferState>, rate: InputStepMode) -> u64
    decreases inputs.len(),
{
    if inputs.len() == 0 {
        NO_LIMIT
    } else {
        let rest = rate_limit(inputs.drop_last(), rate);
        let v = inputs.last();
        if v.stride != 0 && v.rate == rate {
            let l = v.total_size / v.stride;
            if l < rest {
                l
            } else {
                rest
            }
        } else {
            rest
        }
    }
}

/// The limit of a step mode is the least `total_size / stride` over the slots of that
/// step mode with a non-zero stride: every such slot bounds it, and it is the bound of
/// one of them, or `NO_LIMIT` where there is none.
pub proof fn lemma_rate_limit_is_least(inputs: Seq<VertexBufferState>, rate: InputStepMode)
    ensures
        forall|i: int|
            0 <= i < inputs.len() && (#[trigger] inputs[i]).stride != 0 && inputs[i].rate == rate
                ==> rate_limit(inputs, rate) <= inputs[i].total_size / inputs[i].stride,
        rate_limit(inputs, rate) == NO_LIMIT || exists|i: int|
            0 <= i < inputs.len() && (#[trigger] inputs[i]).stride != 0 && inputs[i].rate == rate
                && rate_limit(inputs, rate) == inputs[i].total_size / inputs[i].stride,
    decreases inputs.len(),
{
    if inputs.len() > 0 {
        let rest = inputs.drop_last();
        lemma_rate_limit_is_least(rest, rate);
        assert forall|i: int|
            0 <= i < inputs.len() && (#[trigger] inputs[i]).stride != 0 && inputs[i].rate == rate
                implies rate_limit(inputs, rate) <= inputs[i].total_size / inputs[i].stride by {
            if i < inputs.len() - 1 {
                assert(inputs[i] == rest[i]);
            }
        }
        if rate_limit(inputs, rate) != NO_LIMIT {
            let v = inputs.last();
            if v.stride != 0 && v.rate == rate && v.total_size / v.stride < rate_limit(rest, rate) {
                assert(inputs[inputs.len() - 1] == v);
            } else if v.stride != 0 && v.rate == rate && rate_limit(rest, rate) <= v.total_size / v.stride && rate_limit(rest, rate) == NO_LIMIT {
                assert(inputs[inputs.len() - 1] == v);
            } else {
                let i = choose|i: int|
                    0 <= i < rest.len() && (#[trigger] rest[i]).stride != 0 && rest[i].rate == rate
                        && rate_limit(rest, rate) == rest[i].total_size / rest[i].stride;
                assert(inputs[i] == rest[i]);
            }
        }
    }
}

/// A slot with a zero stride, such as one filled in below a bound slot, changes
/// neither limit.
pub proof fn lemma_zero_stride_slot_ignored(inputs: Seq<VertexBufferState>, x: VertexBufferState, rate: InputStepMode)
    requires
        x.stride == 0,
    ensures
        rate_limit(inputs.push(x), rate) == rate_limit(inputs, rate),
{
    assert(inputs.push(x).drop_last() =~= inputs);
}

/// The vertex buffer slots and the vertex and instance limits they give.
#[derive(Debug)]
pub struct VertexState {
    pub inputs: VertexSlots,
    pub vertex_limit: u64,
    pub instance_limit: u64,
}

impl VertexState {
    pub fn new() -> (r: Self)
        ensures
            slots_of(r.inputs).len() == 0,
            r.vertex_limit == 0,
            r.instance_limit == 0,
    {
        VertexState { inputs: slots_new(), vertex_limit: 0, instance_limit: 0 }
    }

    /// Recomputes both limits from the slots.
    pub fn update_limits(&mut self)
        ensures
            final(self).inputs == old(self).inputs,
            final(self).vertex_limit == rate_limit(slots_of(old(self).inputs), InputStepMode::Vertex),
            final(self).instance_limit == rate_limit(slots_of(old(self).inputs), InputStepMode::Instance),
    {
        let ghost inputs = slots_of(self.inputs);
        let mut vertex_limit: u64 = NO_LIMIT;
        let mut instance_limit: u64 = NO_LIMIT;
        let n = slots_len(&self.inputs);
        let mut i: usize = 0;
        assert(inputs.take(0).len() == 0);
        while i < n
            invariant
                i <= n,
                n == inputs.len(),
                inputs == slots_of(self.inputs),
                self.inputs == old(self).inputs,
                vertex_limit == rate_limit(inputs.take(i as int), InputStepMode::Vertex),
                instance_limit == rate_limit(inputs.take(i as int), InputStepMode::Instance),
            decreases n - i,
        {
            let v = slots_get(&self.inputs, i);
            assert(inputs.take(i + 1).drop_last() =~= inputs.take(i as int));
            assert(inputs.take(i + 1).last() == v);
            if v.stride != 0 {
                let limit = v.total_size / v.stride;
                match v.rate {
                    InputStepMode::Vertex => {
                        if limit < vertex_limit {
                            vertex_limit = limit;
                        }
                    },
                    InputStepMode::Instance => {
                        if limit < instance_limit {
                            instance_limit = limit;
                        }
                    },
                }
            }
            i = i + 1;
        }
        assert(inputs.take(i as int) =~= inputs);
        self.vertex_limit = vertex_limit;
        self.instance_limit = instance_limit;
    }

    /// The slots, in order.
    pub fn slots(&self) -> (r: Vec<VertexBufferState>)
        ensures
            r@ == slots_of(self.inputs),
    {
        let n = slots_len(&self.inputs);
        let mut r: Vec<VertexBufferState> = Vec::new();
        let mut i: usize = 0;
        while i < n
            invariant
                i <= n,
                n == slots_of(self.inputs).len(),
                r@ == slots_of(self.inputs).take(i as int),
            decreases n - i,
        {
            r.push(slots_get(&self.inputs, i));
            i = i + 1;
            assert(r@ =~= slots_of(self.inputs).take(i as int));
        }
        assert(slots_of(self.inputs).take(i as int) =~= slots_of(self.inputs));
        r
    }

    /// Unbinds every vertex buffer.
    pub fn reset(&mut self)
        ensures
            slots_of(final(self).inputs).len() == 0,
            final(self).vertex_limit == 0,
            final(self).instance_limit == 0,
    {
        slots_clear(&mut self.inputs);
        self.vertex_limit = 0;
        self.instance_limit = 0;
    }
}


/// A bind group set at a slot: the group, its layout and its dynamic offsets.
#[derive(Clone, Debug)]
pub struct BindGroupPair {
    pub group_id: Id,
    pub layout_id: Id,
    pub dynamic_offsets: Vec<u32>,
}

/// One bind group slot: what the pipeline expects there and what was set.
#[derive(Clone, Debug)]
pub struct BindEntry {
    pub expected_layout_id: Option<Id>,
    pub provided: Option<BindGroupPair>,
}

/// A slot is valid when the pipeline expects nothing there, or a group of the
/// expected layout was set.
pub open spec fn entry_valid(e: BindEntry) -> bool {
    match e.expected_layout_id {
        None => true,
        Some(l) => e.provided is Some && e.provided->0.layout_id == l,
    }
}

/// The number of leading valid slots.
pub open spec fn compatible_count(entries: Seq<BindEntry>) -> nat
    decreases entries.len(),
{
    if entries.len() == 0 {
        0
    } else if entry_valid(entries[0]) {
        1 + compatible_count(entries.drop_first())
    } else {
        0
    }
}

/// The bind group slots and the pipeline layout they were last checked against.
#[derive(Clone, Debug)]
pub struct Binder {
    pub pipeline_layout_id: Option<Id>,
    pub entries: Vec<BindEntry>,
}

proof fn lemma_compatible_count(entries: Seq<BindEntry>)
    ensures
        compatible_count(entries) <= entries.len(),
        forall|j: int| 0 <= j < compatible_count(entries) ==> entry_valid(#[trigger] entries[j]),
        compatible_count(entries) < entries.len() ==> !entry_valid(
            entries[compatible_count(entries) as int],
        ),
    decreases entries.len(),
{
    if entries.len() > 0 && entry_valid(entries[0]) {
        lemma_compatible_count(entries.drop_first());
        assert forall|j: int| 0 <= j < compatible_count(entries) implies entry_valid(
            #[trigger] entries[j],
        ) by {
            if j > 0 {
                assert(entries[j] == entries.drop_first()[j - 1]);
            }
        }
    }
}

impl Binder {
    /// A binder of `max_bind_groups` empty slots.
    pub fn new(max_bind_groups: u32) -> (r: Self)
        ensures
            r.pipeline_layout_id is None,
            r.entries@.len() == max_bind_groups,
            forall|i: int|
                0 <= i < r.entries@.len() ==> (#[trigger] r.entries@[i]).expected_layout_id is None
                    && r.entries@[i].provided is None,
    {
        let mut entries: Vec<BindEntry> = Vec::new();
        let mut i: u32 = 0;
        while i < max_bind_groups
            invariant
                i <= max_bind_groups,
                entries@.len() == i,
                forall|j: int|
                    0 <= j < entries@.len() ==> (#[trigger] entries@[j]).expected_layout_id is None
                        && entries@[j].provided is None,
            decreases max_bind_groups - i,
        {
            entries.push(BindEntry { expected_layout_id: None, provided: None });
            i = i + 1;
        }
        Binder { pipeline_layout_id: None, entries }
    }

    /// Forgets the pipeline layout and every bind group that was set.
    pub fn reset(&mut self)
        ensures
            final(self).pipeline_layout_id is None,
            final(self).entries@.len() == old(self).entries@.len(),
            forall|i: int|
                0 <= i < final(self).entries@.len() ==> (#[trigger] final(self).entries@[i]).expected_layout_id is None
                    && final(self).entries@[i].provided is None,
    {
        self.pipeline_layout_id = None;
        let n = self.entries.len();
        let mut i: usize = 0;
        while i < n
            invariant
                i <= n,
                n == self.entries@.len(),
                self.pipeline_layout_id is None,
                forall|j: int|
                    0 <= j < i ==> (#[trigger] self.entries@[j]).expected_layout_id is None
                        && self.entries@[j].provided is None,
            decreases n - i,
        {
            self.entries.set(i, BindEntry { expected_layout_id: None, provided: None });
            i = i + 1;
        }
    }

    /// The first slot that does not match what the pipeline expects, if any.
    pub fn first_invalid(&self) -> (r: Option<usize>)
        ensures
            match r {
                None => forall|i: int|
                    0 <= i < self.entries@.len() ==> entry_valid(#[trigger] self.entries@[i]),
                Some(k) => k < self.entries@.len() && !entry_valid(self.entries@[k as int])
                    && forall|i: int| 0 <= i < k ==> entry_valid(#[trigger] self.entries@[i]),
            },
            r is Some ==> r->0 == compatible_count(self.entries@),
    {
        proof {
            lemma_compatible_count(self.entries@);
        }
        let mut i: usize = 0;
        while i < self.entries.len()
            invariant
                i <= self.entries@.len(),
                forall|j: int| 0 <= j < i ==> entry_valid(#[trigger] self.entries@[j]),
            decreases self.entries@.len() - i,
        {
            let valid = match self.entries[i].expected_layout_id {
                None => true,
                Some(l) => match &self.entries[i].provided {
                    Some(pair) => pair.layout_id == l,
                    None => false,
                },
            };
            if !valid {
                proof {
                    lemma_compatible_count(self.entries@);
                    if compatible_count(self.entries@) < i {
                        let c = compatible_count(self.entries@) as int;
                        assert(entry_valid(self.entries@[c]));
                    }
                    if compatible_count(self.entries@) > i {
                        assert(entry_valid(self.entries@[i as int]));
                    }
                }
                return Some(i);
            }
            i = i + 1;
        }
        None
    }

    /// Sets `pair` at slot `index`. Returns where the backend must bind from `index` on:
    /// the pipeline layout and the end of the run of slots to bind, when `index` lies in
    /// the leading run of valid slots after the change and a pipeline layout is known;
    /// `None` when nothing needs binding now.
    pub fn provide_entry(&mut self, index: usize, pair: BindGroupPair) -> (r: Option<(Id, usize)>)
        requires
            index < old(self).entries@.len(),
        ensures
            final(self).pipeline_layout_id == old(self).pipeline_layout_id,
            final(self).entries@ == old(self).entries@.update(
                index as int,
                BindEntry {
                    expected_layout_id: old(self).entries@[index as int].expected_layout_id,
                    provided: Some(pair),
                },
            ),
            match r {
                None => !(index < compatible_count(final(self).entries@))
                    || old(self).pipeline_layout_id is None,
                Some((layout, end)) => index < compatible_count(final(self).entries@)
                    && old(self).pipeline_layout_id == Some(layout) && end == compatible_count(
                    final(self).entries@,
                ) && end <= final(self).entries@.len(),
            },
    {
        let expected = self.entries[index].expected_layout_id;
        self.entries.set(index, BindEntry { expected_layout_id: expected, provided: Some(pair) });
        let ghost entries = self.entries@;
        proof {
            lemma_compatible_count(entries);
        }
        let end = match self.first_invalid() {
            Some(k) => k,
            None => self.entries.len(),
        };
        proof {
            if end == self.entries@.len() && compatible_count(entries) < end {
                assert(entry_valid(entries[compatible_count(entries) as int]));
            }
        }
        if index < end {
            match self.pipeline_layout_id {
                Some(layout) => Some((layout, end)),
                None => None,
            }
        } else {
            None
        }
    }
}


/// The slots, from `i` on, whose bind group has to be bound again when a pipeline
/// layout with bind group layouts `bgl` replaces the expectations of `old`: a slot
/// whose expectation changes and whose group matches the new layout, as long as no
/// earlier changed slot failed to match (`ok`).
pub open spec fn rebind_slots(old: Seq<BindEntry>, bgl: Seq<Id>, i: nat, ok: bool) -> Seq<usize>
    decreases old.len() - i,
{
    if i >= old.len() || i >= bgl.len() {
        Seq::empty()
    } else {
        let e = old[i as int];
        if e.expected_layout_id == Some(bgl[i as int]) {
            rebind_slots(old, bgl, i + 1, ok)
        } else if e.provided is Some && e.provided->0.layout_id == bgl[i as int] {
            (if ok {
                seq![i as usize]
            } else {
                Seq::empty()
            }) + rebind_slots(old, bgl, i + 1, ok)
        } else {
            rebind_slots(old, bgl, i + 1, false)
        }
    }
}

/// The slots after the pipeline layout with bind group layouts `bgl` is expected:
/// the first slots expect those layouts, the others nothing; what was set stays.
pub open spec fn expect_layouts(old: Seq<BindEntry>, bgl: Seq<Id>) -> Seq<BindEntry> {
    Seq::new(
        old.len(),
        |i: int|
            BindEntry {
                expected_layout_id: if i < bgl.len() {
                    Some(bgl[i])
                } else {
                    None
                },
                provided: old[i].provided,
            },
    )
}

impl Binder {
    /// Switches to the pipeline layout `layout_id`, whose bind group layouts are `bgl`.
    /// Returns the slots whose bind groups must be bound again, in order.
    pub fn change_pipeline_layout(&mut self, layout_id: Id, bgl: &Vec<Id>) -> (r: Vec<usize>)
        ensures
            final(self).pipeline_layout_id == Some(layout_id),
            final(self).entries@ == expect_layouts(old(self).entries@, bgl@),
            r@ == rebind_slots(old(self).entries@, bgl@, 0, true),
    {
        let ghost old_entries = self.entries@;
        self.pipeline_layout_id = Some(layout_id);
        let mut r: Vec<usize> = Vec::new();
        let mut ok = true;
        let n = self.entries.len();
        let mut i: usize = 0;
        while i < n
            invariant
                i <= n,
                n == self.entries@.len(),
                n == old_entries.len(),
                self.pipeline_layout_id == Some(layout_id),
                forall|j: int|
                    0 <= j < i ==> #[trigger] self.entries@[j] == expect_layouts(
                        old_entries,
                        bgl@,
                    )[j],
                forall|j: int| i <= j < n ==> #[trigger] self.entries@[j] == old_entries[j],
                r@ + rebind_slots(old_entries, bgl@, i as nat, ok) == rebind_slots(
                    old_entries,
                    bgl@,
                    0,
                    true,
                ),
            decreases n - i,
        {
            let ghost before = r@;
            if i < bgl.len() {
                let l = bgl[i];
                let unchanged = match self.entries[i].expected_layout_id {
                    Some(e) => e == l,
                    None => false,
                };
                if !unchanged {
                    let matches = match &self.entries[i].provided {
                        Some(pair) => pair.layout_id == l,
                        None => false,
                    };
                    if matches {
                        if ok {
                            r.push(i);
                            assert(before + (seq![i] + rebind_slots(
                                old_entries,
                                bgl@,
                                (i + 1) as nat,
                                ok,
                            )) =~= r@ + rebind_slots(old_entries, bgl@, (i + 1) as nat, ok));
                        } else {
                            assert(before + (Seq::<usize>::empty() + rebind_slots(
                                old_entries,
                                bgl@,
                                (i + 1) as nat,
                                ok,
                            )) =~= r@ + rebind_slots(old_entries, bgl@, (i + 1) as nat, ok));
                        }
                    } else {
                        ok = false;
                    }
                }
                let mut e = self.entries.remove(i);
                e.expected_layout_id = Some(l);
                self.entries.insert(i, e);
            } else {
                let mut e = self.entries.remove(i);
                e.expected_layout_id = None;
                self.entries.insert(i, e);
            }
            assert(self.entries@[i as int] == expect_layouts(old_entries, bgl@)[i as int]);
            i = i + 1;
        }
        assert(self.entries@ =~= expect_layouts(old_entries, bgl@));
        assert(r@ + Seq::<usize>::empty() =~= r@);
        r
    }
}


/// Everything a render pass tracks between commands.
#[derive(Debug)]
pub struct State {
    pub binder: Binder,
    pub blend_color: OptionalState,
    pub stencil_reference: OptionalState,
    pub pipeline: OptionalState,
    pub index: IndexState,
    pub vertex: VertexState,
    pub debug_scope_depth: u32,
}

/// What a draw in state `s` gives: the first incompatible bind group slot, then a
/// missing pipeline, blend color or stencil reference, in that order.
pub open spec fn readiness(s: State) -> Result<(), DrawError> {
    if compatible_count(s.binder.entries@) < s.binder.entries@.len() {
        Err(DrawError::IncompatibleBindGroup { index: compatible_count(s.binder.entries@) as u32 })
    } else if s.pipeline == OptionalState::Required {
        Err(DrawError::MissingPipeline)
    } else if s.blend_color == OptionalState::Required {
        Err(DrawError::MissingBlendColor)
    } else if s.stencil_reference == OptionalState::Required {
        Err(DrawError::MissingStencilReference)
    } else {
        Ok(())
    }
}

impl State {
    pub open spec fn wf(&self) -> bool {
        &&& self.index.wf()
        &&& self.binder.entries@.len() <= u32::MAX
    }

    /// The state at the start of a pass: no pipeline, nothing bound, nothing required
    /// but the pipeline.
    pub fn new(max_bind_groups: u32) -> (r: Self)
        ensures
            r.wf(),
            r.pipeline == OptionalState::Required,
            r.blend_color == OptionalState::Unused,
            r.stencil_reference == OptionalState::Unused,
            r.binder.pipeline_layout_id is None,
            r.binder.entries@.len() == max_bind_groups,
            forall|i: int|
                0 <= i < r.binder.entries@.len() ==> (
                #[trigger] r.binder.entries@[i]).expected_layout_id is None
                    && r.binder.entries@[i].provided is None,
            r.index.bound_buffer_view is None,
            r.index.format == IndexFormat::Uint32,
            r.index.limit == 0,
            slots_of(r.vertex.inputs).len() == 0,
            r.vertex.vertex_limit == 0,
            r.vertex.instance_limit == 0,
            r.debug_scope_depth == 0,
    {
        State {
            binder: Binder::new(max_bind_groups),
            blend_color: OptionalState::Unused,
            stencil_reference: OptionalState::Unused,
            pipeline: OptionalState::Required,
            index: IndexState::new(),
            vertex: VertexState::new(),
            debug_scope_depth: 0,
        }
    }

    /// Whether a draw may be issued now.
    pub fn is_ready(&self) -> (r: Result<(), DrawError>)
        requires
            self.wf(),
        ensures
            r == readiness(*self),
    {
        proof {
            lemma_compatible_count(self.binder.entries@);
        }
        match self.binder.first_invalid() {
            Some(index) => {
                return Err(DrawError::IncompatibleBindGroup { index: index as u32 });
            },
            None => {},
        }
        if self.pipeline == OptionalState::Required {
            return Err(DrawError::MissingPipeline);
        }
        if self.blend_color == OptionalState::Required {
            return Err(DrawError::MissingBlendColor);
        }
        if self.stencil_reference == OptionalState::Required {
            return Err(DrawError::MissingStencilReference);
        }
        Ok(())
    }

    /// Forgets the state that executing a bundle may have changed: the pipeline, the
    /// bind groups, and the index and vertex buffers. A pipeline is required again.
    pub fn reset_bundle(&mut self)
        ensures
            final(self).pipeline == OptionalState::Required,
            final(self).binder.pipeline_layout_id is None,
            final(self).binder.entries@.len() == old(self).binder.entries@.len(),
            forall|i: int|
                0 <= i < final(self).binder.entries@.len() ==> (
                #[trigger] final(self).binder.entries@[i]).expected_layout_id is None
                    && final(self).binder.entries@[i].provided is None,
            final(self).index.bound_buffer_view is None,
            final(self).index.limit == 0,
            final(self).index.format == old(self).index.format,
            slots_of(final(self).vertex.inputs).len() == 0,
            final(self).vertex.vertex_limit == 0,
            final(self).vertex.instance_limit == 0,
            final(self).blend_color == old(self).blend_color,
            final(self).stencil_reference == old(self).stencil_reference,
            final(self).debug_scope_depth == old(self).debug_scope_depth,
    {
        self.binder.reset();
        self.pipeline = OptionalState::Required;
        self.index.reset();
        self.vertex.reset();
    }
}

} // verus!
