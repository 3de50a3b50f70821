//! The vertex buffer slots of a pass, held in a fixed-capacity vector.
use vstd::prelude::*;
use arrayvec::ArrayVec;
use crate::state::VertexBufferState;
use crate::types::MAX_VERTEX_BUFFERS;

verus! {

/// The vertex buffer slots, at most `MAX_VERTEX_BUFFERS` of them.
#[verifier::external_body]
#[derive(Debug)]
pub struct VertexSlots {
    inner: ArrayVec<[VertexBufferState; MAX_VERTEX_BUFFERS]>,
}

/// The slots a vector holds, in order.
pub uninterp spec fn slots_of(v: VertexSlots) -> Seq<VertexBufferState>;

/// Relies on `ArrayVec::new`: a new vector holds nothing.
#[verifier::external_body]
pub(crate) fn slots_new() -> (r: VertexSlots)
    ensures
        slots_of(r) == Seq::<VertexBufferState>::empty(),
{
    VertexSlots { inner: ArrayVec::new() }
}

/// Relies on `ArrayVec::len`: the number of elements held, which `try_push` keeps
/// within the capacity.
#[verifier::external_body]
pub(crate) fn slots_len(v: &VertexSlots) -> (r: usize)
    ensures
        r == slots_of(*v).len(),
        r <= MAX_VERTEX_BUFFERS,
{
    v.inner.len()
}

/// Relies on `ArrayVec::push`: appends the element; it panics on a full vector,
/// which `requires` rules out.
#[verifier::external_body]
pub(crate) fn slots_push(v: &mut VertexSlots, x: VertexBufferState)
    requires
        slots_of(*old(v)).len() < MAX_VERTEX_BUFFERS,
    ensures
        slots_of(*final(v)) == slots_of(*old(v)).push(x),
{
    v.inner.push(x)
}

/// Relies on indexing the slice `ArrayVec` dereferences to: the element at `i`.
#[verifier::external_body]
pub(crate) fn slots_get(v: &VertexSlots, i: usize) -> (r: VertexBufferState)
    requires
        i < slots_of(*v).len(),
    ensures
        r == slots_of(*v)[i as int],
{
    v.inner[i]
}

/// Relies on indexing the mutable slice `ArrayVec` dereferences to: replaces the
/// element at `i`.
#[verifier::external_body]
pub(crate) fn slots_set(v: &mut VertexSlots, i: usize, x: VertexBufferState)
    requires
        i < slots_of(*old(v)).len(),
    ensures
        slots_of(*final(v)) == slots_of(*old(v)).update(i as int, x),
{
    v.inner[i] = x;
}

/// Relies on `ArrayVec::clear`: removes every element.
#[verifier::external_body]
pub(crate) fn slots_clear(v: &mut VertexSlots)
    ensures
        slots_of(*final(v)) == Seq::<VertexBufferState>::empty(),
{
    v.inner.clear()
}

} // verus!
