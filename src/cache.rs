//! Backend passes and framebuffers, kept per device and shared by every pass whose
//! key is equal.
use vstd::prelude::*;
use crate::pass::{fb_key_view, rp_key_view, AttachmentKey, FramebufferKey, RenderPassKey};
use crate::types::Id;

verus! {

fn same_attachment_keys(a: &Vec<AttachmentKey>, b: &Vec<AttachmentKey>) -> (r: bool)
    ensures
        r == (a@ == b@),
{
    if a.len() != b.len() {
        return false;
    }
    let mut i: usize = 0;
    while i < a.len()
        invariant
            i <= a@.len(),
            a@.len() == b@.len(),
            forall|j: int| 0 <= j < i ==> a@[j] == b@[j],
        decreases a@.len() - i,
    {
        if a[i] != b[i] {
            return false;
        }
        i = i + 1;
    }
    assert(a@ =~= b@);
    true
}

fn same_ids(a: &Vec<Id>, b: &Vec<Id>) -> (r: bool)
    ensures
        r == (a@ == b@),
{
    if a.len() != b.len() {
        return false;
    }
    let mut i: usize = 0;
    while i < a.len()
        invariant
            i <= a@.len(),
            a@.len() == b@.len(),
            forall|j: int| 0 <= j < i ==> a@[j] == b@[j],
        decreases a@.len() - i,
    {
        if a[i] != b[i] {
            return false;
        }
        i = i + 1;
    }
    assert(a@ =~= b@);
    true
}

impl RenderPassKey {
    /// Whether two keys describe the same backend pass.
    pub fn same_as(&self, other: &RenderPassKey) -> (r: bool)
        ensures
            r == (rp_key_view(*self) == rp_key_view(*other)),
    {
        same_attachment_keys(&self.colors, &other.colors) && same_attachment_keys(
            &self.resolves,
            &other.resolves,
        ) && self.depth_stencil == other.depth_stencil
    }
}

impl FramebufferKey {
    /// Whether two keys bind the same images.
    pub fn same_as(&self, other: &FramebufferKey) -> (r: bool)
        ensures
            r == (fb_key_view(*self) == fb_key_view(*other)),
    {
        same_ids(&self.colors, &other.colors) && same_ids(&self.resolves, &other.resolves)
            && self.depth_stencil == other.depth_stencil
    }
}

/// The backend passes and framebuffers of a device, each under its key, with the
/// handle the next backend object gets.
#[derive(Clone, Debug)]
pub struct PassCache {
    pub render_passes: Vec<(RenderPassKey, u32)>,
    pub framebuffers: Vec<(FramebufferKey, u32)>,
    pub next_handle: u32,
}

/// The handle cached under a key equal to `k`, if any.
pub open spec fn cached_pass(entries: Seq<(RenderPassKey, u32)>, k: RenderPassKey) -> Option<u32> {
    if exists|i: int| 0 <= i < entries.len() && rp_key_view(#[trigger] entries[i].0) == rp_key_view(k) {
        let i = choose|i: int| 0 <= i < entries.len() && rp_key_view(#[trigger] entries[i].0) == rp_key_view(k);
        Some(entries[i].1)
    } else {
        None
    }
}

/// The handle cached under a key equal to `k`, if any.
pub open spec fn cached_framebuffer(entries: Seq<(FramebufferKey, u32)>, k: FramebufferKey) -> Option<u32> {
    if exists|i: int| 0 <= i < entries.len() && fb_key_view(#[trigger] entries[i].0) == fb_key_view(k) {
        let i = choose|i: int| 0 <= i < entries.len() && fb_key_view(#[trigger] entries[i].0) == fb_key_view(k);
        Some(entries[i].1)
    } else {
        None
    }
}

/// A lookup of `key` in `old` that gives `handle` and leaves `new`: the cached handle
/// on a hit, else a fresh handle stored under `key`.
pub open spec fn pass_lookup_or_insert(old: PassCache, key: RenderPassKey, new: PassCache, handle: u32, created: bool) -> bool {
    match cached_pass(old.render_passes@, key) {
        Some(h) => handle == h && !created && new == old,
        None => {
            &&& created
            &&& handle == old.next_handle
            &&& new.render_passes@ == old.render_passes@.push((key, handle))
            &&& new.framebuffers == old.framebuffers
            &&& new.next_handle == old.next_handle + 1
        },
    }
}

/// A lookup of `key` in `old` that gives `handle` and leaves `new`: the cached handle
/// on a hit, else a fresh handle stored under `key`.
pub open spec fn framebuffer_lookup_or_insert(old: PassCache, key: FramebufferKey, new: PassCache, handle: u32, created: bool) -> bool {
    match cached_framebuffer(old.framebuffers@, key) {
        Some(h) => handle == h && !created && new == old,
        None => {
            &&& created
            &&& handle == old.next_handle
            &&& new.framebuffers@ == old.framebuffers@.push((key, handle))
            &&& new.render_passes == old.render_passes
            &&& new.next_handle == old.next_handle + 1
        },
    }
}

impl PassCache {
    /// Keys are stored once each, and every handle is distinct and below the next one.
    pub open spec fn wf(&self) -> bool {
        let rp = self.render_passes@;
        let fb = self.framebuffers@;
        &&& forall|i: int, j: int| 0 <= i < j < rp.len() ==> rp_key_view(#[trigger] rp[i].0) != rp_key_view(#[trigger] rp[j].0)
        &&& forall|i: int, j: int| 0 <= i < j < fb.len() ==> fb_key_view(#[trigger] fb[i].0) != fb_key_view(#[trigger] fb[j].0)
        &&& forall|i: int| 0 <= i < rp.len() ==> (#[trigger] rp[i]).1 < self.next_handle
        &&& forall|i: int| 0 <= i < fb.len() ==> (#[trigger] fb[i]).1 < self.next_handle
        &&& forall|i: int, j: int| 0 <= i < j < rp.len() ==> (#[trigger] rp[i]).1 != (#[trigger] rp[j]).1
        &&& forall|i: int, j: int| 0 <= i < j < fb.len() ==> (#[trigger] fb[i]).1 != (#[trigger] fb[j]).1
    }

    pub fn new() -> (r: Self)
        ensures
            r.wf(),
            r.render_passes@.len() == 0,
            r.framebuffers@.len() == 0,
            r.next_handle == 0,
    {
        PassCache { render_passes: Vec::new(), framebuffers: Vec::new(), next_handle: 0 }
    }

    /// Takes a handle for a backend object that is not cached.
    pub fn fresh_handle(&mut self) -> (r: u32)
        requires
            old(self).wf(),
            old(self).next_handle < u32::MAX,
        ensures
            final(self).wf(),
            r == old(self).next_handle,
            final(self).next_handle == old(self).next_handle + 1,
            final(self).render_passes == old(self).render_passes,
            final(self).framebuffers == old(self).framebuffers,
    {
        let h = self.next_handle;
        self.next_handle = h + 1;
        h
    }

    /// The backend pass for `key`: the cached one, or a fresh handle under which the
    /// caller creates it. Returns the handle and whether it is fresh.
    pub fn render_pass(&mut self, key: RenderPassKey) -> (r: (u32, bool))
        requires
            old(self).wf(),
            old(self).next_handle < u32::MAX,
        ensures
            final(self).wf(),
            pass_lookup_or_insert(*old(self), key, *final(self), r.0, r.1),
    {
        let mut i: usize = 0;
        while i < self.render_passes.len()
            invariant
                i <= self.render_passes@.len(),
                self.wf(),
                *self == *old(self),
                self.next_handle < u32::MAX,
                forall|j: int| 0 <= j < i ==> rp_key_view(#[trigger] self.render_passes@[j].0) != rp_key_view(key),
            decreases self.render_passes@.len() - i,
        {
            if self.render_passes[i].0.same_as(&key) {
                let h = self.render_passes[i].1;
                proof {
                    let rp = self.render_passes@;
                    let k = choose|k: int| 0 <= k < rp.len() && rp_key_view(#[trigger] rp[k].0) == rp_key_view(key);
                    if k != i {
                        if k < i {
                            assert(rp_key_view(rp[k].0) != rp_key_view(rp[i as int].0));
                        } else {
                            assert(rp_key_view(rp[i as int].0) != rp_key_view(rp[k].0));
                        }
                    }
                }
                return (h, false);
            }
            i = i + 1;
        }
        let h = self.next_handle;
        self.next_handle = h + 1;
        self.render_passes.push((key, h));
        (h, true)
    }

    /// The framebuffer for `key`: the cached one, or a fresh handle under which the
    /// caller creates it. Returns the handle and whether it is fresh.
    pub fn framebuffer(&mut self, key: FramebufferKey) -> (r: (u32, bool))
        requires
            old(self).wf(),
            old(self).next_handle < u32::MAX,
        ensures
            final(self).wf(),
            framebuffer_lookup_or_insert(*old(self), key, *final(self), r.0, r.1),
    {
        let mut i: usize = 0;
        while i < self.framebuffers.len()
            invariant
                i <= self.framebuffers@.len(),
                self.wf(),
                *self == *old(self),
                self.next_handle < u32::MAX,
                forall|j: int| 0 <= j < i ==> fb_key_view(#[trigger] self.framebuffers@[j].0) != fb_key_view(key),
            decreases self.framebuffers@.len() - i,
        {
            if self.framebuffers[i].0.same_as(&key) {
                let h = self.framebuffers[i].1;
                proof {
                    let fb = self.framebuffers@;
                    let k = choose|k: int| 0 <= k < fb.len() && fb_key_view(#[trigger] fb[k].0) == fb_key_view(key);
                    if k != i {
                        if k < i {
                            assert(fb_key_view(fb[k].0) != fb_key_view(fb[i as int].0));
                        } else {
                            assert(fb_key_view(fb[i as int].0) != fb_key_view(fb[k].0));
                        }
                    }
                }
                return (h, false);
            }
            i = i + 1;
        }
        let h = self.next_handle;
        self.next_handle = h + 1;
        self.framebuffers.push((key, h));
        (h, true)
    }
}


proof fn lemma_pass_found(c0: PassCache, k: RenderPassKey, c1: PassCache, h: u32, created: bool)
    requires
        pass_lookup_or_insert(c0, k, c1, h, created),
    ensures
        exists|j: int| 0 <= j < c1.render_passes@.len() && rp_key_view(#[trigger] c1.render_passes@[j].0) == rp_key_view(k) && c1.render_passes@[j].1 == h,
{
    if cached_pass(c0.render_passes@, k) is None {
        let j = c0.render_passes@.len() as int;
        assert(c1.render_passes@[j] == (k, h));
        assert(rp_key_view(c1.render_passes@[j].0) == rp_key_view(k));
    } else {
        let rp = c0.render_passes@;
        let i = choose|i: int| 0 <= i < rp.len() && rp_key_view(#[trigger] rp[i].0) == rp_key_view(k);
        assert(c1.render_passes@[i].1 == h);
        assert(rp_key_view(c1.render_passes@[i].0) == rp_key_view(k));
    }
}

/// After a lookup, the key is cached under the handle it gave.
pub proof fn lemma_pass_cached_after(c0: PassCache, k: RenderPassKey, c1: PassCache, h: u32, created: bool)
    requires
        c1.wf(),
        pass_lookup_or_insert(c0, k, c1, h, created),
    ensures
        cached_pass(c1.render_passes@, k) == Some(h),
{
    lemma_pass_found(c0, k, c1, h, created);
    let rp = c1.render_passes@;
    let j = choose|j: int| 0 <= j < rp.len() && rp_key_view(#[trigger] rp[j].0) == rp_key_view(k) && rp[j].1 == h;
    let i = choose|i: int| 0 <= i < rp.len() && rp_key_view(#[trigger] rp[i].0) == rp_key_view(k);
    if i != j {
        if i < j {
            assert(rp_key_view(rp[i].0) != rp_key_view(rp[j].0));
        } else {
            assert(rp_key_view(rp[j].0) != rp_key_view(rp[i].0));
        }
    }
}

/// After a lookup, the key is cached under the handle it gave.
pub proof fn lemma_framebuffer_cached_after(c0: PassCache, k: FramebufferKey, c1: PassCache, h: u32, created: bool)
    requires
        c1.wf(),
        framebuffer_lookup_or_insert(c0, k, c1, h, created),
    ensures
        cached_framebuffer(c1.framebuffers@, k) == Some(h),
{
    lemma_framebuffer_found(c0, k, c1, h, created);
    let fb = c1.framebuffers@;
    let j = choose|j: int| 0 <= j < fb.len() && fb_key_view(#[trigger] fb[j].0) == fb_key_view(k) && fb[j].1 == h;
    let i = choose|i: int| 0 <= i < fb.len() && fb_key_view(#[trigger] fb[i].0) == fb_key_view(k);
    if i != j {
        if i < j {
            assert(fb_key_view(fb[i].0) != fb_key_view(fb[j].0));
        } else {
            assert(fb_key_view(fb[j].0) != fb_key_view(fb[i].0));
        }
    }
}

/// Two lookups in a row give one backend pass for structurally equal keys, and
/// different backend passes for different keys.
pub proof fn lemma_pass_cache_sharing(
    c0: PassCache,
    k1: RenderPassKey,
    c1: PassCache,
    h1: u32,
    created1: bool,
    k2: RenderPassKey,
    c2: PassCache,
    h2: u32,
    created2: bool,
)
    requires
        c0.wf(),
        c1.wf(),
        pass_lookup_or_insert(c0, k1, c1, h1, created1),
        pass_lookup_or_insert(c1, k2, c2, h2, created2),
    ensures
        (rp_key_view(k1) == rp_key_view(k2)) <==> (h1 == h2),
        rp_key_view(k1) == rp_key_view(k2) ==> !created2,
{
    lemma_pass_found(c0, k1, c1, h1, created1);
    let rp = c1.render_passes@;
    let j = choose|j: int| 0 <= j < rp.len() && rp_key_view(#[trigger] rp[j].0) == rp_key_view(k1) && rp[j].1 == h1;
    if rp_key_view(k1) == rp_key_view(k2) {
        assert(rp_key_view(rp[j].0) == rp_key_view(k2));
    } else {
        match cached_pass(rp, k2) {
            Some(h) => {
                let i = choose|i: int| 0 <= i < rp.len() && rp_key_view(#[trigger] rp[i].0) == rp_key_view(k2);
                assert(i != j);
                if i < j {
                    assert(rp[i].1 != rp[j].1);
                } else {
                    assert(rp[j].1 != rp[i].1);
                }
            },
            None => {
                assert(rp[j].1 < c1.next_handle);
            },
        }
    }
}

proof fn lemma_framebuffer_found(c0: PassCache, k: FramebufferKey, c1: PassCache, h: u32, created: bool)
    requires
        framebuffer_lookup_or_insert(c0, k, c1, h, created),
    ensures
        exists|j: int| 0 <= j < c1.framebuffers@.len() && fb_key_view(#[trigger] c1.framebuffers@[j].0) == fb_key_view(k) && c1.framebuffers@[j].1 == h,
{
    if cached_framebuffer(c0.framebuffers@, k) is None {
        let j = c0.framebuffers@.len() as int;
        assert(c1.framebuffers@[j] == (k, h));
        assert(fb_key_view(c1.framebuffers@[j].0) == fb_key_view(k));
    } else {
        let fb = c0.framebuffers@;
        let i = choose|i: int| 0 <= i < fb.len() && fb_key_view(#[trigger] fb[i].0) == fb_key_view(k);
        assert(c1.framebuffers@[i].1 == h);
        assert(fb_key_view(c1.framebuffers@[i].0) == fb_key_view(k));
    }
}

/// Two lookups in a row give one framebuffer for equal keys, and different
/// framebuffers for different keys.
pub proof fn lemma_framebuffer_cache_sharing(
    c0: PassCache,
    k1: FramebufferKey,
    c1: PassCache,
    h1: u32,
    created1: bool,
    k2: FramebufferKey,
    c2: PassCache,
    h2: u32,
    created2: bool,
)
    requires
        c0.wf(),
        c1.wf(),
        framebuffer_lookup_or_insert(c0, k1, c1, h1, created1),
        framebuffer_lookup_or_insert(c1, k2, c2, h2, created2),
    ensures
        (fb_key_view(k1) == fb_key_view(k2)) <==> (h1 == h2),
        fb_key_view(k1) == fb_key_view(k2) ==> !created2,
{
    lemma_framebuffer_found(c0, k1, c1, h1, created1);
    let fb = c1.framebuffers@;
    let j = choose|j: int| 0 <= j < fb.len() && fb_key_view(#[trigger] fb[j].0) == fb_key_view(k1) && fb[j].1 == h1;
    if fb_key_view(k1) == fb_key_view(k2) {
        assert(fb_key_view(fb[j].0) == fb_key_view(k2));
    } else {
        match cached_framebuffer(fb, k2) {
            Some(h) => {
                let i = choose|i: int| 0 <= i < fb.len() && fb_key_view(#[trigger] fb[i].0) == fb_key_view(k2);
                assert(i != j);
                if i < j {
                    assert(fb[i].1 != fb[j].1);
                } else {
                    assert(fb[j].1 != fb[i].1);
                }
            },
            None => {
                assert(fb[j].1 < c1.next_handle);
            },
        }
    }
}

} // verus!
