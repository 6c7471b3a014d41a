//! A model of the kernel's sandbox table, for simulating lifecycles and
//! for stating exactly what creation and destruction guarantee.
//!
//! Creation hands out fresh, increasing identifiers; destruction removes
//! one identifier and reports whether it was live. A destruction that
//! finds nothing reports failure and nothing more — it never aborts, so
//! callers can treat teardown as best-effort.

use vstd::prelude::*;

verus! {

/// The kernel-assigned token for one sandbox: the only value the
/// destroy operation accepts.
#[derive(Clone, Copy, Debug, PartialEq, Eq, Structural)]
pub struct SandboxHandle {
    pub id: i32,
}

/// The table of live sandbox identifiers.
#[derive(Clone, Debug)]
pub struct KernelModel {
    pub next_id: i32,
    pub live: Vec<i32>,
}

impl KernelModel {
    /// Identifiers are unique and below the next one to be handed out.
    pub open spec fn wf(&self) -> bool {
        &&& forall|i: int| 0 <= i < self.live@.len() ==> #[trigger] self.live@[i] < self.next_id
        &&& forall|i: int, j: int|
            0 <= i < j < self.live@.len() ==> self.live@[i] != self.live@[j]
    }

    /// An empty table; identifiers start at zero as the kernel's do.
    pub fn new() -> (r: KernelModel)
        ensures
            r.wf(),
            r.live@ == Seq::<i32>::empty(),
            r.next_id == 0,
    {
        KernelModel { next_id: 0, live: Vec::new() }
    }

    /// Whether `id` names a live sandbox.
    pub fn is_live(&self, id: i32) -> (r: bool)
        ensures
            r == self.live@.contains(id),
    {
        let n = self.live.len();
        let mut i: usize = 0;
        while i < n
            invariant
                i <= n,
                n == self.live@.len(),
                forall|j: int| 0 <= j < i ==> self.live@[j] != id,
            decreases n - i,
        {
            if self.live[i] == id {
                return true;
            }
            i += 1;
        }
        false
    }

    /// Creates a sandbox: a fresh identifier becomes live, and its
    /// handle is the one token that destruction later accepts.
    pub fn create(&mut self) -> (r: SandboxHandle)
        requires
            old(self).wf(),
            old(self).next_id < i32::MAX,
        ensures
            final(self).wf(),
            r.id == old(self).next_id,
            !old(self).live@.contains(r.id),
            final(self).live@ == old(self).live@.push(r.id),
            final(self).next_id == old(self).next_id + 1,
    {
        let id = self.next_id;
        self.live.push(id);
        self.next_id = self.next_id + 1;
        proof {
            if old(self).live@.contains(id) {
                let i = choose|i: int|
                    0 <= i < old(self).live@.len() && old(self).live@[i] == id;
                assert(old(self).live@[i] < id);
            }
            assert forall|i: int, j: int|
                0 <= i < j < self.live@.len() implies self.live@[i] != self.live@[j] by {
                if j < self.live@.len() - 1 {
                    assert(old(self).live@[i] != old(self).live@[j]);
                } else {
                    assert(old(self).live@[i] < id);
                }
            }
        }
        SandboxHandle { id }
    }

    /// Destroys by identifier. Returns whether a live sandbox was found;
    /// finding none is reported as failure, never as a panic, and leaves
    /// the table unchanged.
    pub fn destroy(&mut self, handle: SandboxHandle) -> (r: bool)
        requires
            old(self).wf(),
        ensures
            final(self).wf(),
            destroy_post(*old(self), *final(self), handle, r),
    {
        let id = handle.id;
        let n = self.live.len();
        let mut i: usize = 0;
        while i < n
            invariant
                i <= n,
                n == self.live@.len(),
                old(self).wf(),
                *self == *old(self),
                id == handle.id,
                forall|j: int| 0 <= j < i ==> self.live@[j] != id,
            decreases n - i,
        {
            if self.live[i] == id {
                let ghost pre = self.live@;
                self.live.remove(i);
                proof {
                    assert(self.live@ =~= pre.subrange(0, i as int) + pre.subrange(
                        i + 1,
                        pre.len() as int,
                    ));
                    assert forall|x: i32| x != id implies (self.live@.contains(x)
                        == pre.contains(x)) by {
                        if pre.contains(x) {
                            let k = choose|k: int| 0 <= k < pre.len() && pre[k] == x;
                            if k < i {
                                assert(self.live@[k] == x);
                            } else {
                                assert(k > i);
                                assert(self.live@[k - 1] == x);
                            }
                        }
                        if self.live@.contains(x) {
                            let k = choose|k: int|
                                0 <= k < self.live@.len() && self.live@[k] == x;
                            if k < i {
                                assert(pre[k] == x);
                            } else {
                                assert(pre[k + 1] == x);
                            }
                        }
                    }
                    assert(!self.live@.contains(id)) by {
                        if self.live@.contains(id) {
                            let k = choose|k: int|
                                0 <= k < self.live@.len() && self.live@[k] == id;
                            if k < i {
                                assert(pre[k] == id);
                                assert(pre[i as int] == id);
                            } else {
                                assert(pre[k + 1] == id);
                                assert(pre[i as int] == id);
                            }
                        }
                    }
                    assert(pre.contains(id)) by {
                        assert(pre[i as int] == id);
                    }
                    assert forall|a: int, b: int|
                        0 <= a < b < self.live@.len() implies self.live@[a] != self.live@[b] by {
                        let pa: int = if a < i {
                            a
                        } else {
                            a + 1
                        };
                        let pb: int = if b < i {
                            b
                        } else {
                            b + 1
                        };
                        assert(self.live@[a] == pre[pa]);
                        assert(self.live@[b] == pre[pb]);
                    }
                    assert forall|j: int| 0 <= j < self.live@.len() implies #[trigger] self
                        .live@[j] < self.next_id by {
                        let pj: int = if j < i {
                            j
                        } else {
                            j + 1
                        };
                        assert(self.live@[j] == pre[pj]);
                    }
                }
                return true;
            }
            i += 1;
        }
        assert(!self.live@.contains(id));
        false
    }
}

/// Exactly what one destruction does: it succeeds when and only when the
/// identifier was live, afterwards the identifier is not live, and no
/// other sandbox is touched.
pub open spec fn destroy_post(pre: KernelModel, post: KernelModel, h: SandboxHandle, r: bool) -> bool {
    &&& r == pre.live@.contains(h.id)
    &&& !post.live@.contains(h.id)
    &&& (forall|x: i32| x != h.id ==> post.live@.contains(x) == pre.live@.contains(x))
    &&& post.next_id == pre.next_id
}

/// Non-fatal destroy law: two destructions of the same identifier in a
/// row — whatever the first reported — leave nothing for the second,
/// which therefore reports failure rather than aborting.
pub proof fn lemma_second_destroy_fails(
    k0: KernelModel,
    k1: KernelModel,
    k2: KernelModel,
    h: SandboxHandle,
    r1: bool,
    r2: bool,
)
    requires
        destroy_post(k0, k1, h, r1),
        destroy_post(k1, k2, h, r2),
    ensures
        !r2,
{
}

} // verus!
