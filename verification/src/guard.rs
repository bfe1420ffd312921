//! Admission control: the set of chat ids the bot accepts events from.

use vstd::prelude::*;

verus! {

/// The set of admitted origins (chat ids). An event is handed to the plugins
/// only when its origin is in this set; everything else is turned away with a
/// single denial notice. The set changes only through explicit admission.
pub struct SafetyGuard {
    pub safe_chats: Vec<i64>,
}

impl SafetyGuard {
    /// Whether `id` is admitted, as a mathematical predicate.
    pub open spec fn spec_contains(&self, id: i64) -> bool {
        self.safe_chats@.contains(id)
    }

    /// Internal shape: the backing list holds each id once.
    pub open spec fn wf(&self) -> bool {
        forall|i: int, j: int|
            0 <= i < j < self.safe_chats@.len() ==> self.safe_chats@[i] != self.safe_chats@[j]
    }

    /// How many chats are admitted (meaningful under `wf`).
    pub open spec fn spec_len(&self) -> nat {
        self.safe_chats@.len()
    }

    pub fn new() -> (g: SafetyGuard)
        ensures
            g.wf(),
            g.spec_len() == 0,
            forall|id: i64| !g.spec_contains(id),
    {
        SafetyGuard { safe_chats: Vec::new() }
    }

    /// Whether the chat `id` is admitted.
    pub fn is_safe(&self, id: i64) -> (r: bool)
        ensures
            r == self.spec_contains(id),
    {
        let mut k: usize = 0;
        while k < self.safe_chats.len()
            invariant
                k <= self.safe_chats@.len(),
                forall|i: int| 0 <= i < k ==> self.safe_chats@[i] != id,
            decreases self.safe_chats@.len() - k,
        {
            if self.safe_chats[k] == id {
                return true;
            }
            k += 1;
        }
        false
    }

    /// Admit `id`. Admitting an already-admitted chat changes nothing.
    pub fn add_safe_chat(&mut self, id: i64)
        requires
            old(self).wf(),
        ensures
            final(self).wf(),
            final(self).spec_contains(id),
            forall|o: i64|
                final(self).spec_contains(o) <==> (old(self).spec_contains(o) || o == id),
            old(self).spec_contains(id) ==> *final(self) == *old(self),
    {
        if !self.is_safe(id) {
            self.safe_chats.push(id);
            proof {
                let s0 = old(self).safe_chats@;
                let s1 = self.safe_chats@;
                assert forall|o: i64| s0.contains(o) implies s1.contains(o) by {
                    let k = choose|k: int| 0 <= k < s0.len() && s0[k] == o;
                    assert(s1[k] == o);
                }
                assert(s1[s1.len() - 1] == id);
                assert forall|o: i64| s1.contains(o) implies s0.contains(o) || o == id by {
                    let k = choose|k: int| 0 <= k < s1.len() && s1[k] == o;
                    if k < s0.len() {
                        assert(s0[k] == o);
                    }
                }
            }
        }
    }

    /// Withdraw admission from `id`.
    pub fn remove_safe_chat(&mut self, id: i64)
        requires
            old(self).wf(),
        ensures
            final(self).wf(),
            !final(self).spec_contains(id),
            forall|o: i64|
                final(self).spec_contains(o) <==> (old(self).spec_contains(o) && o != id),
    {
        let mut k: usize = 0;
        while k < self.safe_chats.len()
            invariant
                k <= self.safe_chats@.len(),
                old(self).wf(),
                self == old(self),
                forall|i: int| 0 <= i < k ==> self.safe_chats@[i] != id,
            decreases self.safe_chats@.len() - k,
        {
            if self.safe_chats[k] == id {
                self.safe_chats.remove(k);
                proof {
                    let s0 = old(self).safe_chats@;
                    let s1 = self.safe_chats@;
                    assert forall|o: i64| s1.contains(o)
                        implies (s0.contains(o) && o != id) by {
                        let j = choose|j: int| 0 <= j < s1.len() && s1[j] == o;
                        if j < k {
                            assert(s0[j] == o);
                        } else {
                            assert(s0[j + 1] == o);
                        }
                    }
                    assert forall|o: i64| s0.contains(o) && o != id
                        implies s1.contains(o) by {
                        let j = choose|j: int| 0 <= j < s0.len() && s0[j] == o;
                        if j < k {
                            assert(s1[j] == o);
                        } else {
                            assert(s1[j - 1] == o);
                        }
                    }
                    assert forall|i: int, j: int| 0 <= i < j < s1.len()
                        implies s1[i] != s1[j] by {
                        let i0: int = if i < k { i } else { i + 1 };
                        let j0: int = if j < k { j } else { j + 1 };
                        assert(s1[i] == s0[i0]);
                        assert(s1[j] == s0[j0]);
                    }
                }
                return;
            }
            k += 1;
        }
    }

    /// How many chats are admitted.
    pub fn count(&self) -> (n: usize)
        ensures
            n == self.spec_len(),
    {
        self.safe_chats.len()
    }

    /// The admitted ids, for persistence; the guard is rebuilt from such a
    /// list at startup.
    pub fn snapshot(&self) -> (r: Vec<i64>)
        ensures
            r@ == self.safe_chats@,
            forall|o: i64| r@.contains(o) <==> self.spec_contains(o),
    {
        let mut out: Vec<i64> = Vec::new();
        let mut k: usize = 0;
        while k < self.safe_chats.len()
            invariant
                k <= self.safe_chats@.len(),
                out@ == self.safe_chats@.subrange(0, k as int),
            decreases self.safe_chats@.len() - k,
        {
            out.push(self.safe_chats[k]);
            k += 1;
        }
        proof {
            assert(self.safe_chats@.subrange(0, self.safe_chats@.len() as int)
                =~= self.safe_chats@);
        }
        out
    }

    /// Rebuild a guard from a persisted id list; duplicates collapse.
    pub fn from_list(ids: &Vec<i64>) -> (g: SafetyGuard)
        ensures
            g.wf(),
            forall|o: i64| g.spec_contains(o) <==> ids@.contains(o),
    {
        let mut g = SafetyGuard::new();
        let mut k: usize = 0;
        while k < ids.len()
            invariant
                k <= ids@.len(),
                g.wf(),
                forall|o: i64| g.spec_contains(o) <==> ids@.subrange(0, k as int).contains(o),
            decreases ids@.len() - k,
        {
            let ghost pre = g;
            g.add_safe_chat(ids[k]);
            proof {
                assert forall|o: i64| g.spec_contains(o)
                    implies ids@.subrange(0, k + 1).contains(o) by {
                    if pre.spec_contains(o) {
                        let j = choose|j: int|
                            0 <= j < k && ids@.subrange(0, k as int)[j] == o;
                        assert(ids@.subrange(0, k + 1)[j] == o);
                    } else {
                        assert(ids@.subrange(0, k + 1)[k as int] == o);
                    }
                }
                assert forall|o: i64| ids@.subrange(0, k + 1).contains(o)
                    implies g.spec_contains(o) by {
                    let j = choose|j: int|
                        0 <= j <= k && #[trigger] ids@.subrange(0, k + 1)[j] == o;
                    if j < k {
                        assert(ids@.subrange(0, k as int)[j] == o);
                    }
                }
            }
            k += 1;
        }
        proof {
            assert(ids@.subrange(0, ids@.len() as int) =~= ids@);
        }
        g
    }
}

} // verus!
