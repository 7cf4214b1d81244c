use vstd::prelude::*;

verus! {

/// The size of the block to hand out for a requested `size`: only a
/// positive size gives a block; for any other the allocator answers null.
pub open spec fn block_size_of(size: i32) -> Option<usize> {
    if size > 0 {
        Some(size as usize)
    } else {
        None
    }
}

/// Checks a size requested through the allocator bridge.
pub fn block_size(size: i32) -> (r: Option<usize>)
    ensures
        r == block_size_of(size),
{
    if size > 0 {
        Some(size as usize)
    } else {
        None
    }
}

/// The rendered buffers handed to callers and not yet given back.
pub struct OutputRegistry {
    live: Vec<usize>,
}

impl View for OutputRegistry {
    type V = Set<usize>;

    closed spec fn view(&self) -> Set<usize> {
        self.live@.to_set()
    }
}

impl OutputRegistry {
    pub closed spec fn wf(&self) -> bool {
        self.live@.no_duplicates()
    }

    /// A registry with no buffer handed out.
    pub fn new() -> (r: OutputRegistry)
        ensures
            r.wf(),
            r@ == Set::<usize>::empty(),
    {
        let r = OutputRegistry { live: Vec::new() };
        assert(r.live@.to_set() =~= Set::<usize>::empty());
        r
    }

    fn position(&self, addr: usize) -> (r: Option<usize>)
        ensures
            r is Some ==> r.unwrap() < self.live@.len() && self.live@[r.unwrap() as int] == addr,
            r is None ==> !self.live@.contains(addr),
    {
        let mut i: usize = 0;
        while i < self.live.len()
            invariant
                i <= self.live@.len(),
                forall|j: int| 0 <= j < i ==> self.live@[j] != addr,
            decreases self.live@.len() - i,
        {
            if self.live[i] == addr {
                return Some(i);
            }
            i = i + 1;
        }
        None
    }

    /// Whether the buffer at `addr` is handed out.
    pub fn is_live(&self, addr: usize) -> (r: bool)
        ensures
            r == self@.contains(addr),
    {
        let p = self.position(addr);
        p.is_some()
    }

    /// Records that the buffer at `addr` was handed to a caller. Gives
    /// false, and changes nothing, if it already was.
    pub fn record(&mut self, addr: usize) -> (fresh: bool)
        requires
            old(self).wf(),
        ensures
            final(self).wf(),
            fresh == !old(self)@.contains(addr),
            final(self)@ == old(self)@.insert(addr),
    {
        match self.position(addr) {
            Some(_) => {
                assert(self@ =~= self@.insert(addr));
                false
            },
            None => {
                let ghost before = self.live@;
                self.live.push(addr);
                proof {
                    assert(self.live@.no_duplicates()) by {
                        assert forall|i: int, j: int|
                            0 <= i < self.live@.len() && 0 <= j < self.live@.len() && i != j
                            implies self.live@[i] != self.live@[j] by {
                            if i < before.len() && j < before.len() {
                                assert(before[i] != before[j]);
                            } else if i < before.len() {
                                assert(before.contains(before[i]));
                            } else {
                                assert(before.contains(before[j]));
                            }
                        }
                    }
                    assert(self@ =~= before.to_set().insert(addr)) by {
                        assert forall|x: usize| self.live@.contains(x) <==> before.contains(x)
                            || x == addr by {
                            if before.contains(x) {
                                let k = choose|k: int| 0 <= k < before.len() && before[k] == x;
                                assert(self.live@[k] == x);
                            }
                            if x == addr {
                                assert(self.live@[before.len() as int] == x);
                            }
                        }
                    }
                }
                true
            },
        }
    }

    /// Gives back the buffer at `addr`. Gives false, and changes nothing,
    /// for a buffer that is not handed out: one never recorded, or one
    /// given back already.
    pub fn release(&mut self, addr: usize) -> (known: bool)
        requires
            old(self).wf(),
        ensures
            final(self).wf(),
            known == old(self)@.contains(addr),
            final(self)@ == old(self)@.remove(addr),
    {
        match self.position(addr) {
            None => {
                assert(self@ =~= self@.remove(addr));
                false
            },
            Some(p) => {
                let ghost before = self.live@;
                self.live.remove(p);
                proof {
                    assert(self.live@ =~= before.remove(p as int));
                    assert(self.live@.no_duplicates()) by {
                        assert forall|i: int, j: int|
                            0 <= i < self.live@.len() && 0 <= j < self.live@.len() && i != j
                            implies self.live@[i] != self.live@[j] by {
                            let bi = if i < p { i } else { i + 1 };
                            let bj = if j < p { j } else { j + 1 };
                            assert(before[bi] != before[bj]);
                        }
                    }
                    assert(self@ =~= before.to_set().remove(addr)) by {
                        assert forall|x: usize| self.live@.contains(x) <==> before.contains(x)
                            && x != addr by {
                            if self.live@.contains(x) {
                                let k = choose|k: int| 0 <= k < self.live@.len() && self.live@[k] == x;
                                let bk = if k < p { k } else { k + 1 };
                                assert(before[bk] == x);
                                assert(bk != p);
                            }
                            if before.contains(x) && x != addr {
                                let k = choose|k: int| 0 <= k < before.len() && before[k] == x;
                                assert(k != p);
                                if k < p {
                                    assert(self.live@[k] == x);
                                } else {
                                    assert(self.live@[k - 1] == x);
                                }
                            }
                        }
                    }
                }
                true
            },
        }
    }
}

} // verus!

verus! {

/// Once a buffer is given back it is no longer handed out, so a second
/// release of it, like the release of a buffer never handed out, is
/// reported.
pub proof fn lemma_second_release_refused(live: Set<usize>, addr: usize)
    ensures
        !live.remove(addr).contains(addr),
        live.remove(addr).remove(addr) == live.remove(addr),
{
    assert(live.remove(addr).remove(addr) =~= live.remove(addr));
}

} // verus!
