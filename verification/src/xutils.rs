//! An arena-backed doubly-linked list: elements live in slots of a
//! vector, freed slots are recycled, and the list order is kept through
//! `prev`/`next` slot indices. Used for window stacking orders that need
//! stable handles and cheap unlinking.

use vstd::prelude::*;

verus! {

/// One slot of the [`Stack`]'s arena
pub struct StackElem<T> {
    /// The element held in the slot
    pub element: T,
    /// Slot of the element to the right, if any
    pub next: Option<usize>,
    /// Slot of the element to the left, if any
    pub prev: Option<usize>,
}

impl<T> StackElem<T> {
    /// Create a new, unlinked [`StackElem`]
    fn new(element: T) -> (r: Self)
        ensures
            r.element == element,
            r.next is None,
            r.prev is None,
    {
        Self { element, next: None, prev: None }
    }
}

/// A doubly-linked list of elements in an arena of recycled slots
pub struct Stack<T> {
    /// The arena of slots
    elements: Vec<StackElem<T>>,
    /// Slots freed by unlinking, ready for reuse
    free: Vec<usize>,
    /// Slot of the first element, if any
    head: Option<usize>,
    /// Slot of the last element, if any
    tail: Option<usize>,
    /// The slots that are linked, in list order
    order: Ghost<Seq<usize>>,
}

impl<T> Stack<T> {
    /// The linked slots, in list order
    pub closed spec fn order_view(&self) -> Seq<usize> {
        self.order@
    }

    /// The elements of the list, in order
    pub closed spec fn view(&self) -> Seq<T> {
        Seq::new(self.order@.len(), |i: int| self.elements@[self.order@[i] as int].element)
    }

    /// Every slot is either linked at exactly one position or free, the
    /// ends point at the first and last linked slot, and each linked
    /// slot's neighbors are the slots beside it in order
    pub closed spec fn wf(&self) -> bool {
        let order = self.order@;
        let n = self.elements@.len() as int;
        &&& forall|i: int| 0 <= i < order.len() ==> 0 <= #[trigger] order[i] < n
        &&& forall|i: int, j: int| 0 <= i < j < order.len() ==> order[i] != order[j]
        &&& forall|i: int| 0 <= i < self.free@.len() ==> 0 <= #[trigger] self.free@[i] < n
        &&& forall|i: int, j: int|
            0 <= i < j < self.free@.len() ==> self.free@[i] != self.free@[j]
        &&& forall|i: int, j: int|
            0 <= i < order.len() && 0 <= j < self.free@.len() ==> #[trigger] order[i]
                != #[trigger] self.free@[j]
        &&& order.len() + self.free@.len() == n
        &&& self.head == (if order.len() > 0 {
            Some(order[0] as usize)
        } else {
            None::<usize>
        })
        &&& self.tail == (if order.len() > 0 {
            Some(order.last() as usize)
        } else {
            None::<usize>
        })
        &&& forall|i: int|
            0 <= i < order.len() ==> self.elements@[#[trigger] order[i] as int].next == (if i + 1
                < order.len() {
                Some(order[i + 1] as usize)
            } else {
                None::<usize>
            })
        &&& forall|i: int|
            0 <= i < order.len() ==> self.elements@[#[trigger] order[i] as int].prev == (if i > 0 {
                Some(order[i - 1] as usize)
            } else {
                None::<usize>
            })
    }

    /// The list holds one element per linked slot
    pub proof fn lemma_view_len(&self)
        ensures
            self@.len() == self.order_view().len(),
    {
    }

    /// Every slot is linked at most once
    pub proof fn lemma_order_distinct(&self)
        requires
            self.wf(),
        ensures
            forall|i: int, j: int|
                0 <= i < j < self.order_view().len() ==> self.order_view()[i]
                    != self.order_view()[j],
    {
    }

    /// Create a new, empty [`Stack`]
    pub fn new() -> (r: Self)
        ensures
            r@ == Seq::<T>::empty(),
            r.wf(),
    {
        let r = Self {
            elements: Vec::new(),
            free: Vec::new(),
            head: None,
            tail: None,
            order: Ghost(Seq::empty()),
        };
        proof {
            assert(r@ =~= Seq::<T>::empty());
        }
        r
    }

    /// The number of elements in the list
    pub fn len(&self) -> (r: usize)
        requires
            self.wf(),
        ensures
            r == self@.len(),
    {
        self.elements.len() - self.free.len()
    }

    /// The element at the front of the list
    pub fn front(&self) -> (r: Option<&T>)
        requires
            self.wf(),
        ensures
            r == if self@.len() > 0 {
                Some(&self@[0])
            } else {
                None::<&T>
            },
    {
        match self.head {
            Some(x) => Some(&self.elements[x].element),
            None => None,
        }
    }

    /// The element at the back of the list
    pub fn back(&self) -> (r: Option<&T>)
        requires
            self.wf(),
        ensures
            r == if self@.len() > 0 {
                Some(&self@[self@.len() - 1])
            } else {
                None::<&T>
            },
    {
        match self.tail {
            Some(x) => Some(&self.elements[x].element),
            None => None,
        }
    }

    /// Put an element into a slot, recycling a freed slot when one
    /// exists, and return the slot's index; the slot is not yet linked
    fn alloc_slot(&mut self, element: T) -> (idx: usize)
        requires
            old(self).wf(),
        ensures
            final(self).order@ == old(self).order@,
            final(self).head == old(self).head,
            final(self).tail == old(self).tail,
            idx < final(self).elements@.len(),
            final(self).elements@[idx as int].element == element,
            final(self)@ == old(self)@,
            // the new slot is neither linked nor free, everything else is
            // as before
            forall|i: int|
                0 <= i < old(self).order@.len() ==> #[trigger] old(self).order@[i] != idx,
            forall|i: int|
                0 <= i < final(self).free@.len() ==> 0 <= #[trigger] final(self).free@[i]
                    < final(self).elements@.len() && final(self).free@[i] != idx,
            forall|i: int, j: int|
                0 <= i < j < final(self).free@.len() ==> final(self).free@[i] != final(self).free@[j],
            forall|i: int, j: int|
                0 <= i < final(self).order@.len() && 0 <= j < final(self).free@.len()
                    ==> #[trigger] final(self).order@[i] != #[trigger] final(self).free@[j],
            final(self).order@.len() + final(self).free@.len() + 1 == final(self).elements@.len(),
            forall|i: int|
                0 <= i < final(self).order@.len() ==> 0 <= #[trigger] final(self).order@[i]
                    < final(self).elements@.len(),
            forall|k: int|
                0 <= k < old(self).elements@.len() && k != idx ==> final(self).elements@[k] == old(self).elements@[k],
    {
        let idx = match self.free.pop() {
            Some(idx) => {
                let slot = StackElem::new(element);
                self.elements.set(idx, slot);
                idx
            },
            None => {
                self.elements.push(StackElem::new(element));
                self.elements.len() - 1
            },
        };
        proof {
            assert(self@ =~= old(self)@);
        }
        idx
    }


    /// Re-point a slot's `next` link
    fn set_next(&mut self, slot: usize, v: Option<usize>)
        requires
            slot < old(self).elements@.len(),
        ensures
            final(self).elements@ == old(self).elements@.update(
                slot as int,
                StackElem {
                    next: v,
                    element: old(self).elements@[slot as int].element,
                    prev: old(self).elements@[slot as int].prev,
                },
            ),
            final(self).free@ == old(self).free@,
            final(self).head == old(self).head,
            final(self).tail == old(self).tail,
            final(self).order@ == old(self).order@,
    {
        let s = &mut self.elements[slot];
        s.next = v;
    }

    /// Re-point a slot's `prev` link
    fn set_prev(&mut self, slot: usize, v: Option<usize>)
        requires
            slot < old(self).elements@.len(),
        ensures
            final(self).elements@ == old(self).elements@.update(
                slot as int,
                StackElem {
                    prev: v,
                    element: old(self).elements@[slot as int].element,
                    next: old(self).elements@[slot as int].next,
                },
            ),
            final(self).free@ == old(self).free@,
            final(self).head == old(self).head,
            final(self).tail == old(self).tail,
            final(self).order@ == old(self).order@,
    {
        let s = &mut self.elements[slot];
        s.prev = v;
    }

    /// Push an element to the front of the list, returning its slot: the
    /// slot now linked first
    #[verifier::rlimit(100)]
    pub fn push_front(&mut self, element: T) -> (idx: usize)
        requires
            old(self).wf(),
        ensures
            final(self)@ == seq![element] + old(self)@,
            final(self).order_view() == seq![idx] + old(self).order_view(),
            final(self).wf(),
    {
        let idx = self.alloc_slot(element);
        let old_head = self.head;
        self.set_next(idx, old_head);
        self.set_prev(idx, None);
        match old_head {
            None => {
                self.tail = Some(idx);
            },
            Some(head_idx) => {
                self.set_prev(head_idx, Some(idx));
            },
        }
        self.head = Some(idx);
        proof {
            self.order@ = seq![idx] + old(self).order@;
        }
        proof {
            let order0 = old(self).order@;
            let order1 = self.order@;
            assert(order1[0] == idx);
            assert forall|i: int| 0 <= i < order1.len() implies self.elements@[#[trigger] order1[i] as int].next == (if i + 1 < order1.len() {
                Some(order1[i + 1] as usize)
            } else {
                None::<usize>
            }) && self.elements@[order1[i] as int].prev == (if i > 0 {
                Some(order1[i - 1] as usize)
            } else {
                None::<usize>
            }) by {
                if i == 0 {
                } else {
                    assert(order1[i] == order0[i - 1]);
                    assert(order0[i - 1] != idx);
                }
            }
            assert(self@ =~= seq![element] + old(self)@);
        }
        idx
    }

    /// Push an element to the back of the list, returning its slot: the
    /// slot now linked last
    pub fn push_back(&mut self, element: T) -> (idx: usize)
        requires
            old(self).wf(),
        ensures
            final(self)@ == old(self)@.push(element),
            final(self).order_view() == old(self).order_view().push(idx),
            final(self).wf(),
    {
        let idx = self.alloc_slot(element);
        let old_tail = self.tail;
        self.set_prev(idx, old_tail);
        self.set_next(idx, None);
        match old_tail {
            None => {
                self.head = Some(idx);
            },
            Some(tail_idx) => {
                self.set_next(tail_idx, Some(idx));
            },
        }
        self.tail = Some(idx);
        proof {
            self.order@ = old(self).order@.push(idx);
        }
        proof {
            let order0 = old(self).order@;
            let order1 = self.order@;
            assert(order1.last() == idx);
            assert forall|i: int| 0 <= i < order1.len() implies self.elements@[#[trigger] order1[i] as int].next == (if i + 1 < order1.len() {
                Some(order1[i + 1] as usize)
            } else {
                None::<usize>
            }) && self.elements@[order1[i] as int].prev == (if i > 0 {
                Some(order1[i - 1] as usize)
            } else {
                None::<usize>
            }) by {
                if i < order1.len() - 1 {
                    assert(order1[i] == order0[i]);
                    assert(order0[i] != idx);
                    if i == order0.len() - 1 {
                    }
                }
            }
            assert(self@ =~= old(self)@.push(element));
        }
        idx
    }

    /// Unlink the element in the given slot; the slot is freed for reuse
    /// Unlinking a slot from a well-formed list leaves a well-formed
    /// list whose order lacks that slot: the hypotheses describe exactly
    /// the two neighbor re-links and the freed slot
    #[verifier::rlimit(100)]
    #[verifier::spinoff_prover]
    proof fn lemma_unlink_wf(pre: Self, post: Self, k: int)
        requires
            pre.wf(),
            0 <= k < pre.order@.len(),
            post.order@ == pre.order@.remove(k),
            post.free@ == pre.free@.push(pre.order@[k]),
            post.elements@.len() == pre.elements@.len(),
            post.head == (if k == 0 {
                if pre.order@.len() > 1 {
                    Some(pre.order@[1] as usize)
                } else {
                    None::<usize>
                }
            } else {
                pre.head
            }),
            post.tail == (if k == pre.order@.len() - 1 {
                if k > 0 {
                    Some(pre.order@[k - 1] as usize)
                } else {
                    None::<usize>
                }
            } else {
                pre.tail
            }),
            forall|s: int|
                0 <= s < pre.elements@.len() && (k == 0 || s != pre.order@[k - 1] as int) && (k
                    == pre.order@.len() - 1 || s != pre.order@[k + 1] as int)
                    ==> post.elements@[s] == pre.elements@[s],
            k > 0 ==> {
                let p = pre.order@[k - 1] as int;
                &&& post.elements@[p].element == pre.elements@[p].element
                &&& post.elements@[p].prev == pre.elements@[p].prev
                &&& post.elements@[p].next == (if k + 1 < pre.order@.len() {
                    Some(pre.order@[k + 1] as usize)
                } else {
                    None::<usize>
                })
            },
            k + 1 < pre.order@.len() ==> {
                let q = pre.order@[k + 1] as int;
                &&& post.elements@[q].element == pre.elements@[q].element
                &&& post.elements@[q].next == pre.elements@[q].next
                &&& post.elements@[q].prev == (if k > 0 {
                    Some(pre.order@[k - 1] as usize)
                } else {
                    None::<usize>
                })
            },
        ensures
            post.wf(),
            post@ == pre@.remove(k),
    {
        let order0 = pre.order@;
        let order1 = post.order@;
        order0.remove_ensures(k);
        assert forall|s: int| 0 <= s < order1.len() implies order1[s] != order0[k] by {
            if s < k {
                assert(order1[s] == order0[s]);
            } else {
                assert(order1[s] == order0[s + 1]);
            }
        }
        assert forall|i: int, j: int|
            0 <= i < j < order1.len() implies order1[i] != order1[j] by {
            let i0 = if i < k {
                i
            } else {
                i + 1
            };
            let j0 = if j < k {
                j
            } else {
                j + 1
            };
            assert(order1[i] == order0[i0]);
            assert(order1[j] == order0[j0]);
        }
        assert forall|i: int, j: int|
            0 <= i < order1.len() && 0 <= j < post.free@.len() implies #[trigger] order1[i]
                != #[trigger] post.free@[j] by {
            if j < pre.free@.len() {
                assert(post.free@[j] == pre.free@[j]);
                let i0 = if i < k {
                    i
                } else {
                    i + 1
                };
                assert(order1[i] == order0[i0]);
            } else {
                assert(post.free@[j] == order0[k]);
            }
        }
        assert forall|i: int|
            0 <= i < order1.len() implies post.elements@[#[trigger] order1[i] as int].next == (if i
            + 1 < order1.len() {
            Some(order1[i + 1] as usize)
        } else {
            None::<usize>
        }) by {
            if i < k - 1 {
                assert(order1[i] == order0[i]);
                assert(order1[i + 1] == order0[i + 1]);
                assert(post.elements@[order0[i] as int] == pre.elements@[order0[i] as int]);
            } else if i == k - 1 {
                assert(order1[i] == order0[i]);
                if i + 1 < order1.len() {
                    assert(order1[i + 1] == order0[i + 2]);
                }
            } else {
                assert(order1[i] == order0[i + 1]);
                if i + 1 < order1.len() {
                    assert(order1[i + 1] == order0[i + 2]);
                }
                if i == k {
                    if k + 1 < order0.len() {
                        assert(post.elements@[order0[k + 1] as int].next == pre.elements@[order0[k
                            + 1] as int].next);
                    }
                } else {
                    assert(post.elements@[order0[i + 1] as int] == pre.elements@[order0[i
                        + 1] as int]);
                }
            }
        }
        assert forall|i: int|
            0 <= i < order1.len() implies post.elements@[#[trigger] order1[i] as int].prev == (if i
            > 0 {
            Some(order1[i - 1] as usize)
        } else {
            None::<usize>
        }) by {
            if i < k - 1 {
                assert(order1[i] == order0[i]);
                assert(post.elements@[order0[i] as int] == pre.elements@[order0[i] as int]);
                if i > 0 {
                    assert(order1[i - 1] == order0[i - 1]);
                }
            } else if i == k - 1 {
                assert(order1[i] == order0[i]);
                if i > 0 {
                    assert(order1[i - 1] == order0[i - 1]);
                }
                assert(post.elements@[order0[i] as int].prev == pre.elements@[order0[i] as int].prev);
            } else if i == k {
                assert(order1[i] == order0[i + 1]);
                if i > 0 {
                    assert(order1[i - 1] == order0[i - 1]);
                }
            } else {
                assert(order1[i] == order0[i + 1]);
                assert(order1[i - 1] == order0[i]);
                assert(post.elements@[order0[i + 1] as int] == pre.elements@[order0[i + 1] as int]);
            }
        }
        assert forall|i: int| 0 <= i < order1.len() implies #[trigger] post@[i] == pre@.remove(
            k,
        )[i] by {
            let i0 = if i < k {
                i
            } else {
                i + 1
            };
            assert(order1[i] == order0[i0]);
            if i0 != k - 1 && i0 != k + 1 {
                assert(post.elements@[order0[i0] as int] == pre.elements@[order0[i0] as int]);
            }
        }
        assert(post@ =~= pre@.remove(k));
    }

    /// Unlink the element in the given slot; the slot is freed for reuse
    #[verifier::rlimit(100)]
    pub fn remove_node(&mut self, idx: usize)
        requires
            old(self).wf(),
            old(self).order_view().contains(idx),
        ensures
            final(self)@ == old(self)@.remove(old(self).order_view().index_of(idx)),
            final(self).order_view() == old(self).order_view().remove(
                old(self).order_view().index_of(idx),
            ),
            final(self).wf(),
    {
        proof {
            let order0 = old(self).order@;
            let k = choose|k: int| 0 <= k < order0.len() && order0[k] == idx;
            assert(order0[order0.index_of(idx)] == idx);
        }
        let ghost order0 = old(self).order@;
        let ghost k = order0.index_of(idx);
        let prev = self.elements[idx].prev;
        let next = self.elements[idx].next;
        proof {
            assert(order0[k] == idx);
            assert(prev == if k > 0 {
                Some(order0[k - 1] as usize)
            } else {
                None::<usize>
            });
            assert(next == if k + 1 < order0.len() {
                Some(order0[k + 1] as usize)
            } else {
                None::<usize>
            });
            if k > 0 {
                assert(order0[k - 1] != order0[k]);
            }
            if k + 1 < order0.len() {
                assert(order0[k] != order0[k + 1]);
                if k > 0 {
                    assert(order0[k - 1] != order0[k + 1]);
                }
            }
        }
        match prev {
            Some(prev_idx) => {
                self.set_next(prev_idx, next);
            },
            None => {
                self.head = next;
            },
        }
        match next {
            Some(next_idx) => {
                self.set_prev(next_idx, prev);
            },
            None => {
                self.tail = prev;
            },
        }
        self.free.push(idx);
        proof {
            self.order@ = order0.remove(k);
        }
        proof {
            Self::lemma_unlink_wf(*old(self), *self, k);
        }
    }

    /// Copy out the elements, in list order
    pub fn iter(&self) -> (r: Vec<&T>)
        requires
            self.wf(),
        ensures
            r@.len() == self@.len(),
            forall|i: int| 0 <= i < self@.len() ==> r@[i] == &self@[i],
    {
        let mut out: Vec<&T> = Vec::new();
        let mut curr = self.head;
        let ghost k = 0int;
        while curr.is_some()
            invariant
                self.wf(),
                0 <= k <= self.order_view().len(),
                curr == if k < self.order_view().len() {
                    Some(self.order_view()[k] as usize)
                } else {
                    None::<usize>
                },
                out@.len() == k,
                forall|i: int| 0 <= i < k ==> out@[i] == &self@[i],
            decreases self.order_view().len() - k,
        {
            let x = curr.unwrap();
            out.push(&self.elements[x].element);
            curr = self.elements[x].next;
            proof {
                k = k + 1;
            }
        }
        out
    }
}

} // verus!
