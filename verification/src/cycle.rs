//! The selection [`Ring`]: a generic ordered container with focus
//! tracking, cycling, dragging and a bounded unwind history, used for
//! monitors, desktops and tiling-tree leaves alike.
//!
//! Besides the ordered elements the ring keeps an index map from each
//! element's identity to its current position. The central invariant,
//! [`Ring::wf`], says that this map agrees with the true positions after
//! every structural operation.

use crate::types::{Identify, Idx, Xid};
use std::collections::HashMap;
use vstd::pervasive::VecAdditionalExecFns;
use vstd::prelude::*;

verus! {

broadcast use vstd::std_specs::hash::group_hash_axioms;

/// Maximum number of identities the unwind history keeps
pub const MAX_STACK_LEN: usize = 16;

/// What a re-sync of the index map is adjusting for
#[derive(Debug, Clone, Copy, PartialEq, Eq, Structural)]
enum StackAction {
    /// An element is about to be inserted at the pivot
    Insert,
    /// The element at the pivot was removed
    Remove,
}

// ============================ Direction =============================

/// Direction in which the [`Ring`] is rotated or cycled
#[derive(Debug, Clone, Copy, PartialEq, Eq, Structural)]
pub enum Direction {
    /// Move to the next item
    Forward,
    /// Move to the previous item
    Backward,
}

impl Direction {
    /// Reverse the direction
    pub fn reverse(self) -> (r: Self)
        ensures
            self == Direction::Forward ==> r == Direction::Backward,
            self == Direction::Backward ==> r == Direction::Forward,
    {
        match self {
            Self::Forward => Self::Backward,
            Self::Backward => Self::Forward,
        }
    }
}

// =========================== InsertPoint ============================

/// Location at which an element is inserted into a [`Ring`]
#[derive(Debug, Clone, Copy, PartialEq, Eq, Structural)]
pub enum InsertPoint {
    /// At the position of the currently focused element
    BeforeFocused,
    /// After the currently focused element
    AfterFocused,
    /// Before the given index
    BeforeIndex(Idx),
    /// After the given index
    AfterIndex(Idx),
    /// Before the element with the given identity
    BeforeIdent(Xid),
    /// After the element with the given identity
    AfterIdent(Xid),
    /// First position
    Front,
    /// Last position
    Back,
}

// ============================= Selector =============================

/// Describes one element of a [`Ring`]. A query for a single element
/// treats [`Selector::Any`] like [`Selector::Focused`]; a query for many
/// elements treats it as matching everything. A predicate ("first element
/// satisfying a condition") is passed to the `*_where` methods as a
/// function at the call site.
#[derive(Debug, Clone, Copy, PartialEq, Eq, Structural)]
pub enum Selector {
    /// Any element: the focused one for single queries, all of them for
    /// multi-result queries
    Any,
    /// The first element
    First,
    /// The last element
    Last,
    /// The focused element
    Focused,
    /// The element at the given index, bounds-checked
    Index(Idx),
    /// The element with the given identity
    Ident(Xid),
}

// =============================== Ring ===============================

/// The ordered, focus-tracking container
pub struct Ring<T: Identify> {
    /// The elements, in selection order
    pub elements: Vec<T>,
    /// Map of each element's identity to its current position
    pub indices: HashMap<Xid, Idx>,
    /// Position of the focused element; meaningful only when smaller than
    /// the number of elements
    pub focused: Idx,
    /// Does the ring keep an unwind history?
    pub unwindable: bool,
    /// Bounded history of previously focused identities, most recent last
    pub stack: Vec<Xid>,
}

impl<T: Identify> View for Ring<T> {
    type V = Seq<T>;

    open spec fn view(&self) -> Seq<T> {
        self.elements@
    }
}

impl<T: Identify> Ring<T> {
    /// The identities of the elements, in element order
    pub open spec fn ids(&self) -> Seq<Xid> {
        Seq::new(self@.len(), |i: int| self@[i].id_spec())
    }

    /// Position of the focused element
    pub open spec fn focused_spec(&self) -> int {
        self.focused as int
    }

    /// The unwind history, most recently focused identity last
    pub open spec fn stack_view(&self) -> Seq<Xid> {
        self.stack@
    }

    /// Does the ring keep an unwind history?
    pub open spec fn unwindable_spec(&self) -> bool {
        self.unwindable
    }

    /// The index map, as a mathematical map
    pub open spec fn indices_view(&self) -> Map<Xid, Idx> {
        self.indices@
    }

    /// The index map agrees with the true positions: every element's
    /// identity maps to its position, and the map holds nothing else.
    pub open spec fn indices_ok(&self) -> bool {
        &&& forall|i: int|
            0 <= i < self.ids().len() ==> self.indices@.contains_key(#[trigger] self.ids()[i])
                && self.indices@[self.ids()[i]] == i as usize
        &&& forall|id: Xid|
            self.indices@.contains_key(id) ==> self.ids().contains(id)
    }

    /// The focus points at an element, or at position zero of an empty ring
    pub open spec fn focus_ok(&self) -> bool {
        self.focused < self@.len() || (self@.len() == 0 && self.focused == 0)
    }

    /// The unwind history is bounded, holds each identity at most once,
    /// and is empty when the ring is not unwindable
    pub open spec fn stack_ok(&self) -> bool {
        &&& self.stack@.len() <= MAX_STACK_LEN
        &&& forall|i: int, j: int|
            0 <= i < j < self.stack@.len() ==> self.stack@[i] != self.stack@[j]
        &&& !self.unwindable ==> self.stack@.len() == 0
    }

    /// Well-formedness: the sync invariant together with focus and
    /// history sanity
    pub open spec fn wf(&self) -> bool {
        &&& self.indices_ok()
        &&& self.focus_ok()
        &&& self.stack_ok()
    }

    /// Distinct identities follow from the sync invariant
    pub proof fn lemma_ids_distinct(&self)
        requires
            self.indices_ok(),
        ensures
            forall|i: int, j: int|
                0 <= i < j < self.ids().len() ==> self.ids()[i] != self.ids()[j],
    {
        assert(self.elements.len() == self@.len());
        assert forall|i: int, j: int|
            0 <= i < j < self.ids().len() implies self.ids()[i] != self.ids()[j] by {
            if self.ids()[i] == self.ids()[j] {
                assert(self.indices@[self.ids()[i]] == i as usize);
                assert(self.indices@[self.ids()[j]] == j as usize);
                assert(i as usize == j as usize);
            }
        }
    }

    /// Index reported for the last element of a collection of the given
    /// length: zero when it is empty
    pub open spec fn last_index_spec(n: int) -> int {
        if n == 0 {
            0
        } else {
            n - 1
        }
    }

    /// Return the index of the last element, or zero when empty
    fn last_index_of(len: usize) -> (r: Idx)
        ensures
            r == Self::last_index_spec(len as int),
    {
        if len == 0 {
            0
        } else {
            len - 1
        }
    }

    /// Create a new [`Ring`] holding the given elements, focused on the
    /// last of them
    pub fn new(elements: Vec<T>, unwindable: bool) -> (r: Self)
        requires
            forall|i: int, j: int|
                0 <= i < j < elements@.len() ==> elements@[i].id_spec() != elements@[j].id_spec(),
        ensures
            r@ == elements@,
            r.focused_spec() == Self::last_index_spec(elements@.len() as int),
            r.unwindable_spec() == unwindable,
            r.stack_view() == Seq::<Xid>::empty(),
            r.wf(),
    {
        let mut indices: HashMap<Xid, Idx> = HashMap::new();
        let mut i: usize = 0;
        while i < elements.len()
            invariant
                i <= elements@.len(),
                forall|k: int, l: int|
                    0 <= k < l < elements@.len() ==> elements@[k].id_spec()
                        != elements@[l].id_spec(),
                forall|k: int|
                    0 <= k < i ==> indices@.contains_key(#[trigger] elements@[k].id_spec())
                        && indices@[elements@[k].id_spec()] == k as usize,
                forall|id: Xid|
                    indices@.contains_key(id) ==> exists|k: int|
                        0 <= k < i && #[trigger] elements@[k].id_spec() == id,
            decreases elements@.len() - i,
        {
            let id = elements[i].id();
            indices.insert(id, i);
            i = i + 1;
        }
        let focused = Self::last_index_of(elements.len());
        let r = Self { indices, focused, elements, unwindable, stack: Vec::new() };
        proof {
            assert(r.ids() =~= Seq::new(r@.len(), |k: int| r@[k].id_spec()));
            assert forall|id: Xid| r.indices@.contains_key(id) implies r.ids().contains(id) by {
                let k = choose|k: int| 0 <= k < r@.len() && #[trigger] r@[k].id_spec() == id;
                assert(r.ids()[k] == id);
            }
        }
        r
    }

    /// Reset the ring: no elements, no history, focus at zero
    pub fn clear(&mut self)
        ensures
            final(self)@.len() == 0,
            final(self).focused_spec() == 0,
            final(self).stack_view().len() == 0,
            final(self).unwindable_spec() == old(self).unwindable_spec(),
            final(self).wf(),
    {
        self.focused = 0;
        self.elements.clear();
        self.indices.clear();
        self.stack.clear();
    }

    /// Return the number of elements
    pub fn len(&self) -> (r: usize)
        ensures
            r == self@.len(),
    {
        self.elements.len()
    }

    /// Check whether the ring is empty
    pub fn is_empty(&self) -> (r: bool)
        ensures
            r <==> self@.len() == 0,
    {
        self.elements.len() == 0
    }

    /// Check whether an element with the given element's identity is held
    pub fn contains(&self, element: &T) -> (r: bool)
        requires
            self.wf(),
        ensures
            r <==> self.ids().contains(element.id_spec()),
    {
        let id = element.id();
        let found = self.indices.contains_key(&id);
        proof {
            if self.ids().contains(id) {
                let i = choose|i: int| 0 <= i < self.ids().len() && self.ids()[i] == id;
                assert(self.indices@.contains_key(id));
            }
        }
        found
    }

    /// Retrieve the index of the currently focused element
    pub fn focused_index(&self) -> (r: Idx)
        ensures
            r == self.focused_spec(),
    {
        self.focused
    }

    /// The focused position when it points at an element
    fn index_opt(&self) -> (r: Option<Idx>)
        ensures
            r == if self.focused_spec() < self@.len() {
                Some(self.focused)
            } else {
                None::<Idx>
            },
    {
        if self.focused < self.elements.len() {
            Some(self.focused)
        } else {
            None
        }
    }

    /// Try to retrieve the focused element
    pub fn focused(&self) -> (r: Option<&T>)
        ensures
            r == if self.focused_spec() < self@.len() {
                Some(&self@[self.focused_spec()])
            } else {
                None::<&T>
            },
    {
        if self.focused < self.elements.len() {
            Some(&self.elements[self.focused])
        } else {
            None
        }
    }

    /// Return the focused element; the focus must point at one
    pub fn focused_unchecked(&self) -> (r: &T)
        requires
            self.focused_spec() < self@.len(),
        ensures
            r == &self@[self.focused_spec()],
    {
        &self.elements[self.focused]
    }

    /// Retrieve the element at the given index
    pub fn get(&self, index: Idx) -> (r: Option<&T>)
        ensures
            r == if index < self@.len() {
                Some(&self@[index as int])
            } else {
                None::<&T>
            },
    {
        if index < self.elements.len() {
            Some(&self.elements[index])
        } else {
            None
        }
    }

    /// Retrieve the element at the given index; it must exist
    pub fn get_unchecked(&self, index: Idx) -> (r: &T)
        requires
            index < self@.len(),
        ensures
            r == &self@[index as int],
    {
        &self.elements[index]
    }

    /// Convert an index to the identity of the element there
    fn index_to_id(&self, index: Idx) -> (r: Option<Xid>)
        ensures
            r == if index < self@.len() {
                Some(self.ids()[index as int])
            } else {
                None::<Xid>
            },
    {
        if index < self.elements.len() {
            Some(self.elements[index].id())
        } else {
            None
        }
    }

    /// Convert an identity into the index of its element
    pub fn id_to_index(&self, id: Xid) -> (r: Option<Idx>)
        requires
            self.indices_ok(),
        ensures
            r == if self.ids().contains(id) {
                Some(self.ids().index_of(id) as usize)
            } else {
                None::<Idx>
            },
            r is Some ==> 0 <= r.unwrap() < self@.len() && self.ids()[r.unwrap() as int] == id,
    {
        let res = match self.indices.get(&id) {
            Some(i) => Some(*i),
            None => None,
        };
        proof {
            self.lemma_ids_distinct();
            assert(self.elements.len() == self@.len());
            if self.indices@.contains_key(id) {
                let i = self.indices@[id];
                assert(self.ids().contains(id));
                let j = self.ids().index_of(id);
                assert(self.ids()[j] == id);
                assert(self.indices@[self.ids()[j]] == j as usize);
                assert(i == j as usize);
                assert(0 <= j < self@.len());
                assert(self.ids()[i as int] == id);
            } else {
                if self.ids().contains(id) {
                    let i = choose|i: int| 0 <= i < self.ids().len() && self.ids()[i] == id;
                    assert(self.indices@.contains_key(self.ids()[i]));
                }
            }
        }
        res
    }

    /// Get the index of the given element, by its identity
    pub fn index_of(&self, element: &T) -> (r: Option<Idx>)
        requires
            self.wf(),
        ensures
            r == if self.ids().contains(element.id_spec()) {
                Some(self.ids().index_of(element.id_spec()) as usize)
            } else {
                None::<Idx>
            },
    {
        self.id_to_index(element.id())
    }

    // =========================== Selectors ===========================

    /// The position a [`Selector`] resolves to, if any: the focus for
    /// `Focused` and `Any`, the ends for `First` and `Last`, a
    /// bounds-checked position for `Index`, and an identity lookup for
    /// `Ident`. Lookups that match nothing resolve to nothing.
    pub open spec fn resolve_spec(&self, sel: Selector) -> Option<int> {
        let n = self@.len() as int;
        match sel {
            Selector::Any | Selector::Focused => if self.focused_spec() < n {
                Some(self.focused_spec())
            } else {
                None
            },
            Selector::First => if n > 0 {
                Some(0int)
            } else {
                None
            },
            Selector::Last => if n > 0 {
                Some(n - 1)
            } else {
                None
            },
            Selector::Index(i) => if (i as int) < n {
                Some(i as int)
            } else {
                None
            },
            Selector::Ident(id) => if self.ids().contains(id) {
                Some(self.ids().index_of(id))
            } else {
                None
            },
        }
    }

    /// A resolved position always points at an element
    pub proof fn lemma_resolve_in_bounds(&self, sel: Selector)
        requires
            self.wf(),
            self.resolve_spec(sel) is Some,
        ensures
            0 <= self.resolve_spec(sel).unwrap() < self@.len(),
    {
        if let Selector::Ident(id) = sel {
            assert(self.ids().contains(id));
            let j = self.ids().index_of(id);
            assert(self.ids()[j] == id);
        }
    }

    /// Retrieve the index of the element matching a [`Selector`]
    pub fn index_for(&self, sel: &Selector) -> (r: Option<Idx>)
        requires
            self.wf(),
        ensures
            r == match self.resolve_spec(*sel) {
                Some(i) => Some(i as usize),
                None => None::<Idx>,
            },
            r is Some ==> r.unwrap() < self@.len(),
    {
        proof {
            if self.resolve_spec(*sel) is Some {
                self.lemma_resolve_in_bounds(*sel);
            }
            assert(self.elements.len() == self@.len());
        }
        match sel {
            Selector::Focused | Selector::Any => {
                if self.focused < self.elements.len() {
                    Some(self.focused)
                } else {
                    None
                }
            },
            Selector::First => {
                if self.elements.len() > 0 {
                    Some(0)
                } else {
                    None
                }
            },
            Selector::Last => {
                if self.elements.len() > 0 {
                    Some(self.elements.len() - 1)
                } else {
                    None
                }
            },
            Selector::Index(idx) => {
                if *idx < self.elements.len() {
                    Some(*idx)
                } else {
                    None
                }
            },
            Selector::Ident(id) => self.id_to_index(*id),
        }
    }

    /// Retrieve the element matching a [`Selector`]
    pub fn get_for(&self, sel: &Selector) -> (r: Option<&T>)
        requires
            self.wf(),
        ensures
            r == match self.resolve_spec(*sel) {
                Some(i) => Some(&self@[i]),
                None => None::<&T>,
            },
    {
        proof {
            if self.resolve_spec(*sel) is Some {
                self.lemma_resolve_in_bounds(*sel);
            }
            assert(self.elements.len() == self@.len());
        }
        match self.index_for(sel) {
            Some(index) => Some(&self.elements[index]),
            None => None,
        }
    }

    /// Retrieve the index together with the element matching a [`Selector`]
    pub fn indexed_element(&self, s: &Selector) -> (r: Option<(Idx, &T)>)
        requires
            self.wf(),
        ensures
            r == match self.resolve_spec(*s) {
                Some(i) => Some((i as usize, &self@[i])),
                None => None::<(Idx, &T)>,
            },
    {
        proof {
            if self.resolve_spec(*s) is Some {
                self.lemma_resolve_in_bounds(*s);
            }
            assert(self.elements.len() == self@.len());
        }
        match self.index_for(s) {
            Some(index) => Some((index, &self.elements[index])),
            None => None,
        }
    }

    /// Do two [`Selector`]s resolve to the same element?
    pub fn cmp_selectors(&self, s: &Selector, t: &Selector) -> (r: bool)
        requires
            self.wf(),
        ensures
            r <==> (self.resolve_spec(*s) is Some && self.resolve_spec(*s) == self.resolve_spec(
                *t,
            )),
    {
        proof {
            if self.resolve_spec(*s) is Some {
                self.lemma_resolve_in_bounds(*s);
            }
            if self.resolve_spec(*t) is Some {
                self.lemma_resolve_in_bounds(*t);
            }
            assert(self.elements.len() == self@.len());
        }
        match (self.index_for(s), self.index_for(t)) {
            (Some(e), Some(f)) => e == f,
            _ => false,
        }
    }

    /// Retrieve the element at the given index, for mutation
    pub fn get_mut(&mut self, index: Idx) -> (r: Option<&mut T>)
        ensures
            index < old(self)@.len() ==> {
                &&& r is Some
                &&& *r.unwrap() == old(self)@[index as int]
                &&& final(self)@ == old(self)@.update(index as int, *final(r.unwrap()))
            },
            index >= old(self)@.len() ==> r is None && final(self)@ == old(self)@,
            final(self).indices@ == old(self).indices@,
            final(self).focused_spec() == old(self).focused_spec(),
            final(self).stack_view() == old(self).stack_view(),
            final(self).unwindable_spec() == old(self).unwindable_spec(),
    {
        if index < self.elements.len() {
            Some(&mut self.elements[index])
        } else {
            None
        }
    }

    /// Retrieve the element at the given index, for mutation; it must exist
    pub fn get_unchecked_mut(&mut self, index: Idx) -> (r: &mut T)
        requires
            index < old(self)@.len(),
        ensures
            *r == old(self)@[index as int],
            final(self)@ == old(self)@.update(index as int, *final(r)),
            final(self).indices@ == old(self).indices@,
            final(self).focused_spec() == old(self).focused_spec(),
            final(self).stack_view() == old(self).stack_view(),
            final(self).unwindable_spec() == old(self).unwindable_spec(),
    {
        &mut self.elements[index]
    }

    /// Retrieve the focused element, for mutation
    pub fn focused_mut(&mut self) -> (r: Option<&mut T>)
        ensures
            old(self).focused_spec() < old(self)@.len() ==> {
                &&& r is Some
                &&& *r.unwrap() == old(self)@[old(self).focused_spec()]
                &&& final(self)@ == old(self)@.update(old(self).focused_spec(), *final(r.unwrap()))
            },
            old(self).focused_spec() >= old(self)@.len() ==> r is None && final(self)@ == old(self)@,
            final(self).indices@ == old(self).indices@,
            final(self).focused_spec() == old(self).focused_spec(),
            final(self).stack_view() == old(self).stack_view(),
            final(self).unwindable_spec() == old(self).unwindable_spec(),
    {
        let index = self.focused;
        self.get_mut(index)
    }

    /// Retrieve the focused element, for mutation; the focus must point at
    /// one
    pub fn focused_mut_unchecked(&mut self) -> (r: &mut T)
        requires
            old(self).focused_spec() < old(self)@.len(),
        ensures
            *r == old(self)@[old(self).focused_spec()],
            final(self)@ == old(self)@.update(old(self).focused_spec(), *final(r)),
            final(self).indices@ == old(self).indices@,
            final(self).focused_spec() == old(self).focused_spec(),
            final(self).stack_view() == old(self).stack_view(),
            final(self).unwindable_spec() == old(self).unwindable_spec(),
    {
        let index = self.focused;
        &mut self.elements[index]
    }

    /// Retrieve the element matching a [`Selector`], for mutation
    pub fn get_for_mut(&mut self, sel: &Selector) -> (r: Option<&mut T>)
        requires
            old(self).wf(),
        ensures
            match old(self).resolve_spec(*sel) {
                Some(i) => {
                    &&& r is Some
                    &&& *r.unwrap() == old(self)@[i]
                    &&& final(self)@ == old(self)@.update(i, *final(r.unwrap()))
                },
                None => r is None && final(self)@ == old(self)@,
            },
            final(self).indices@ == old(self).indices@,
            final(self).focused_spec() == old(self).focused_spec(),
            final(self).stack_view() == old(self).stack_view(),
            final(self).unwindable_spec() == old(self).unwindable_spec(),
    {
        proof {
            if self.resolve_spec(*sel) is Some {
                self.lemma_resolve_in_bounds(*sel);
            }
            assert(self.elements.len() == self@.len());
        }
        match self.index_for(sel) {
            Some(index) => Some(&mut self.elements[index]),
            None => None,
        }
    }

    /// Retrieve all elements matching a [`Selector`]. `Any` matches every
    /// element here, while a single-result query treats it as the focus.
    pub fn get_all_for(&self, sel: &Selector) -> (r: Vec<&T>)
        requires
            self.wf(),
        ensures
            match *sel {
                Selector::Any => r@.len() == self@.len() && forall|i: int|
                    0 <= i < self@.len() ==> r@[i] == &self@[i],
                _ => r@ == match self.resolve_spec(*sel) {
                    Some(i) => seq![&self@[i]],
                    None => Seq::<&T>::empty(),
                },
            },
    {
        let mut out: Vec<&T> = Vec::new();
        match sel {
            Selector::Any => {
                let mut i: usize = 0;
                while i < self.elements.len()
                    invariant
                        i <= self@.len(),
                        out@.len() == i,
                        forall|j: int| 0 <= j < i ==> out@[j] == &self@[j],
                    decreases self@.len() - i,
                {
                    out.push(&self.elements[i]);
                    i = i + 1;
                }
            },
            _ => {
                proof {
                    if self.resolve_spec(*sel) is Some {
                        self.lemma_resolve_in_bounds(*sel);
                    }
                    assert(self.elements.len() == self@.len());
                }
                match self.index_for(sel) {
                    Some(index) => {
                        out.push(&self.elements[index]);
                        proof {
                            assert(out@ =~= seq![&self@[index as int]]);
                        }
                    },
                    None => {
                        proof {
                            assert(out@ =~= Seq::<&T>::empty());
                        }
                    },
                }
            },
        }
        out
    }

    // ========================== Navigation ===========================

    /// Would stepping in `direction` from `index` wrap past the first or
    /// last element?
    pub open spec fn will_wrap_spec(&self, index: int, direction: Direction) -> bool {
        match direction {
            Direction::Forward => index == Self::last_index_spec(self@.len() as int),
            Direction::Backward => index == 0,
        }
    }

    /// Check whether moving from `index` in `direction` would wrap around
    pub fn will_wrap_from(&self, index: Idx, direction: Direction) -> (r: bool)
        ensures
            r == self.will_wrap_spec(index as int, direction),
    {
        match direction {
            Direction::Forward => index == Self::last_index_of(self.elements.len()),
            Direction::Backward => index == 0,
        }
    }

    /// The position one step from `index` in `direction`, wrapping around
    /// at the ends
    pub open spec fn next_index_spec(&self, index: int, direction: Direction) -> int {
        match direction {
            Direction::Forward => if self.will_wrap_spec(index, direction) {
                0
            } else {
                index + 1
            },
            Direction::Backward => if self.will_wrap_spec(index, direction) {
                Self::last_index_spec(self@.len() as int)
            } else {
                index - 1
            },
        }
    }

    /// Get the next index starting from the given index
    fn next_index_from(&self, index: Idx, direction: Direction) -> (r: Idx)
        requires
            index < self@.len() || (self@.len() == 0 && index == 0),
        ensures
            r == self.next_index_spec(index as int, direction),
    {
        let end = Self::last_index_of(self.elements.len());
        match direction {
            Direction::Forward => {
                if self.will_wrap_from(index, direction) {
                    0
                } else {
                    index + 1
                }
            },
            Direction::Backward => {
                if self.will_wrap_from(index, direction) {
                    end
                } else {
                    index - 1
                }
            },
        }
    }

    /// Retrieve the next position from the focus in the given direction
    pub fn next_index(&self, direction: Direction) -> (r: Idx)
        requires
            self.focus_ok(),
        ensures
            r == self.next_index_spec(self.focused_spec(), direction),
    {
        self.next_index_from(self.focused, direction)
    }

    /// Retrieve the next element from the focus in the given direction
    pub fn next_element(&self, direction: Direction) -> (r: Option<&T>)
        requires
            self.wf(),

        ensures
            ({
                let n = self.next_index_spec(self.focused_spec(), direction);
                r == if 0 <= n < self@.len() {
                    Some(&self@[n])
                } else {
                    None::<&T>
                }
            }),
    {
        let next_index = self.next_index(direction);
        self.get_for(&Selector::Index(next_index))
    }

    // ============================= Stack =============================

    /// The unwind history with the given identity taken out, if present
    pub open spec fn stack_remove_spec(st: Seq<Xid>, id: Xid) -> Seq<Xid> {
        st.remove_value(id)
    }

    /// Taking an identity out of the bounded history keeps it bounded,
    /// free of repeated identities, and free of that identity
    proof fn lemma_stack_remove_ok(st: Seq<Xid>, id: Xid)
        requires
            forall|i: int, j: int| 0 <= i < j < st.len() ==> st[i] != st[j],
        ensures
            Self::stack_remove_spec(st, id).len() <= st.len(),
            forall|i: int, j: int|
                0 <= i < j < Self::stack_remove_spec(st, id).len() ==> Self::stack_remove_spec(
                    st,
                    id,
                )[i] != Self::stack_remove_spec(st, id)[j],
            !Self::stack_remove_spec(st, id).contains(id),
    {
        st.index_of_first_ensures(id);
        let cleaned = Self::stack_remove_spec(st, id);
        if st.contains(id) {
            let k = st.index_of_first(id).unwrap();
            st.remove_ensures(k);
            assert forall|a: int| 0 <= a < cleaned.len() implies cleaned[a] != id by {
                if a < k {
                    assert(cleaned[a] == st[a]);
                    assert(st[a] != st[k]);
                } else {
                    assert(cleaned[a] == st[a + 1]);
                    assert(st[k] != st[a + 1]);
                }
            }
            assert forall|a: int, b: int|
                0 <= a < b < cleaned.len() implies cleaned[a] != cleaned[b] by {
                if b < k {
                    assert(cleaned[a] == st[a] && cleaned[b] == st[b]);
                } else if a >= k {
                    assert(cleaned[a] == st[a + 1] && cleaned[b] == st[b + 1]);
                } else {
                    assert(cleaned[a] == st[a] && cleaned[b] == st[b + 1]);
                }
            }
            assert(!cleaned.contains(id)) by {
                if cleaned.contains(id) {
                    let a = choose|a: int| 0 <= a < cleaned.len() && cleaned[a] == id;
                    assert(cleaned[a] != id);
                }
            }
        } else {
            assert(!cleaned.contains(id)) by {
                if cleaned.contains(id) {
                    assert(st.contains(id));
                }
            }
        }
    }

    /// Pushing onto the bounded history keeps it bounded and free of
    /// repeated identities
    proof fn lemma_stack_push_ok(st: Seq<Xid>, id: Xid)
        requires
            st.len() <= MAX_STACK_LEN,
            forall|i: int, j: int| 0 <= i < j < st.len() ==> st[i] != st[j],
        ensures
            Self::stack_push_spec(st, id).len() <= MAX_STACK_LEN,
            forall|i: int, j: int|
                0 <= i < j < Self::stack_push_spec(st, id).len() ==> Self::stack_push_spec(
                    st,
                    id,
                )[i] != Self::stack_push_spec(st, id)[j],
    {
        st.index_of_first_ensures(id);
        let cleaned = Self::stack_remove_spec(st, id);
        if st.contains(id) {
            let k = st.index_of_first(id).unwrap();
            st.remove_ensures(k);
            assert forall|a: int| 0 <= a < cleaned.len() implies cleaned[a] != id by {
                if a < k {
                    assert(cleaned[a] == st[a]);
                    assert(st[a] != st[k]);
                } else {
                    assert(cleaned[a] == st[a + 1]);
                    assert(st[k] != st[a + 1]);
                }
            }
            assert forall|a: int, b: int|
                0 <= a < b < cleaned.len() implies cleaned[a] != cleaned[b] by {
                if b < k {
                    assert(cleaned[a] == st[a] && cleaned[b] == st[b]);
                } else if a >= k {
                    assert(cleaned[a] == st[a + 1] && cleaned[b] == st[b + 1]);
                } else {
                    assert(cleaned[a] == st[a] && cleaned[b] == st[b + 1]);
                }
            }
        } else {
            assert forall|a: int| 0 <= a < cleaned.len() implies cleaned[a] != id by {
                assert(st[a] == cleaned[a]);
                if cleaned[a] == id {
                    assert(st.contains(id));
                }
            }
        }
        let bounded = if cleaned.len() >= MAX_STACK_LEN {
            cleaned.subrange(1, cleaned.len() as int)
        } else {
            cleaned
        };
        let pushed = bounded.push(id);
        assert forall|i: int, j: int| 0 <= i < j < pushed.len() implies pushed[i] != pushed[j] by {
            if j == pushed.len() - 1 {
                assert(pushed[j] == id);
                assert(pushed[i] == bounded[i]);
            } else {
                assert(pushed[i] == bounded[i] && pushed[j] == bounded[j]);
            }
        }
    }

    /// The unwind history after recording the given identity as most
    /// recent: any old occurrence is dropped first, and the oldest entry
    /// falls out when the bounded history is full
    pub open spec fn stack_push_spec(st: Seq<Xid>, id: Xid) -> Seq<Xid> {
        let cleaned = Self::stack_remove_spec(st, id);
        let bounded = if cleaned.len() >= MAX_STACK_LEN {
            cleaned.subrange(1, cleaned.len() as int)
        } else {
            cleaned
        };
        bounded.push(id)
    }

    /// Return the unwind history of previously focused identities
    pub fn stack(&self) -> (r: &Vec<Xid>)
        ensures
            r@ == self.stack_view(),
    {
        &self.stack
    }

    /// Remove the identity from the unwind history, wherever it stands
    fn remove_from_stack(&mut self, id: Xid)
        ensures
            final(self).stack@ == Self::stack_remove_spec(old(self).stack@, id),
            final(self).elements@ == old(self).elements@,
            final(self).ids() == old(self).ids(),
            final(self).indices@ == old(self).indices@,
            final(self).focused == old(self).focused,
            final(self).unwindable == old(self).unwindable,
    {
        let mut i: usize = 0;
        while i < self.stack.len()
            invariant
                i <= self.stack@.len(),
                forall|j: int| 0 <= j < i ==> self.stack@[j] != id,
                self == old(self),
            decreases self.stack@.len() - i,
        {
            if self.stack[i] == id {
                proof {
                    let st = old(self).stack@;
                    assert(st[i as int] == id);
                    st.index_of_first_ensures(id);
                    let k = st.index_of_first(id).unwrap();
                    if k < i as int {
                        assert(st[k] != id);
                    }
                    if k > i as int {
                        assert(st[i as int] != id);
                    }
                    assert(k == i as int);
                }
                self.stack.remove(i);
                return ;
            }
            i = i + 1;
        }
        proof {
            let st = old(self).stack@;
            st.index_of_first_ensures(id);
            if st.contains(id) {
                let k = st.index_of_first(id).unwrap();
                assert(st[k] != id);
            }
        }
    }

    /// Remove the most recently recorded identity from the history
    fn pop_from_stack(&mut self) -> (r: Option<Xid>)
        ensures
            final(self).elements@ == old(self).elements@,
            final(self).ids() == old(self).ids(),
            final(self).indices@ == old(self).indices@,
            final(self).focused == old(self).focused,
            final(self).unwindable == old(self).unwindable,
            !old(self).unwindable || old(self).stack@.len() == 0 ==> r is None
                && final(self).stack@ == old(self).stack@,
            old(self).unwindable && old(self).stack@.len() > 0 ==> r == Some(
                old(self).stack@.last(),
            ) && final(self).stack@ == old(self).stack@.drop_last(),
    {
        if !self.unwindable {
            return None;
        }
        let r = self.stack.pop();
        proof {
            if old(self).stack@.len() > 0 {
                assert(self.stack@ =~= old(self).stack@.drop_last());
            }
        }
        r
    }

    /// Record the identity at the given position as the most recently
    /// focused one, when the ring keeps a history
    fn push_index_to_stack(&mut self, index: Option<Idx>)
        ensures
            final(self).elements@ == old(self).elements@,
            final(self).ids() == old(self).ids(),
            final(self).indices@ == old(self).indices@,
            final(self).focused == old(self).focused,
            final(self).unwindable == old(self).unwindable,
            final(self).stack@ == match index {
                Some(i) if old(self).unwindable && (i as int) < old(self)@.len() =>
                    Self::stack_push_spec(old(self).stack@, old(self).ids()[i as int]),
                _ => old(self).stack@,
            },
            old(self).stack_ok() ==> final(self).stack_ok(),
    {
        if self.unwindable {
            if let Some(index) = index {
                if index < self.elements.len() {
                    let id = self.elements[index].id();
                    let ghost st0 = self.stack@;
                    self.remove_from_stack(id);
                    proof {
                        st0.index_of_first_ensures(id);
                        if st0.contains(id) {
                            let k = st0.index_of_first(id).unwrap();
                            st0.remove_ensures(k);
                        }
                    }
                    if self.stack.len() >= MAX_STACK_LEN {
                        self.stack.remove(0);
                    }
                    self.stack.push(id);
                    proof {
                        let cleaned = Self::stack_remove_spec(st0, id);
                        let bounded = if cleaned.len() >= MAX_STACK_LEN as int {
                            cleaned.subrange(1, cleaned.len() as int)
                        } else {
                            cleaned
                        };
                        assert(self.stack@ =~= bounded.push(id));
                        if old(self).stack_ok() {
                            Self::lemma_stack_push_ok(st0, id);
                        }
                    }
                }
            }
        }
    }

    /// Record the currently focused identity in the history
    fn push_focused_to_stack(&mut self)
        ensures
            final(self).elements@ == old(self).elements@,
            final(self).ids() == old(self).ids(),
            final(self).indices@ == old(self).indices@,
            final(self).focused == old(self).focused,
            final(self).unwindable == old(self).unwindable,
            final(self).stack@ == if old(self).unwindable
                && old(self).focused_spec() < old(self)@.len() {
                Self::stack_push_spec(
                    old(self).stack@,
                    old(self).ids()[old(self).focused_spec()],
                )
            } else {
                old(self).stack@
            },
            old(self).stack_ok() ==> final(self).stack_ok(),
    {
        if self.unwindable {
            let index = self.index_opt();
            self.push_index_to_stack(index);
        }
    }

    /// The unwind history as the stacking order after the focused element:
    /// the focused identity stands last, any older occurrence of it is
    /// dropped
    pub fn stack_after_focus(&self) -> (r: Vec<Xid>)
        ensures
            r@ == if self.focused_spec() < self@.len() {
                Self::stack_remove_spec(self.stack@, self.ids()[self.focused_spec()]).push(
                    self.ids()[self.focused_spec()],
                )
            } else {
                self.stack@
            },
    {
        let mut out: Vec<Xid> = Vec::new();
        let mut i: usize = 0;
        while i < self.stack.len()
            invariant
                i <= self.stack@.len(),
                out@ == self.stack@.subrange(0, i as int),
            decreases self.stack@.len() - i,
        {
            out.push(self.stack[i]);
            i = i + 1;
        }
        proof {
            assert(out@ =~= self.stack@);
        }
        if self.focused < self.elements.len() {
            let id = self.elements[self.focused].id();
            let mut j: usize = 0;
            let mut found: Option<usize> = None;
            while j < out.len() && found.is_none()
                invariant
                    j <= out@.len(),
                    out@ == self.stack@,
                    found is None ==> forall|k: int| 0 <= k < j ==> self.stack@[k] != id,
                    found is Some ==> {
                        &&& found.unwrap() < j
                        &&& self.stack@[found.unwrap() as int] == id
                        &&& forall|k: int| 0 <= k < found.unwrap() ==> self.stack@[k] != id
                    },
                decreases out@.len() - j,
            {
                if out[j] == id {
                    found = Some(j);
                }
                j = j + 1;
            }
            proof {
                self.stack@.index_of_first_ensures(id);
                match found {
                    Some(f) => {
                        let k = self.stack@.index_of_first(id).unwrap();
                        if k < f as int {
                            assert(self.stack@[k] != id);
                        }
                        if k > f as int {
                            assert(self.stack@[f as int] != id);
                        }
                        assert(k == f as int);
                    },
                    None => {
                        if self.stack@.contains(id) {
                            let k = self.stack@.index_of_first(id).unwrap();
                            assert(self.stack@[k] != id);
                        }
                    },
                }
            }
            if let Some(fi) = found {
                out.remove(fi);
            }
            out.push(id);
            proof {
                assert(out@ =~= Self::stack_remove_spec(
                    self.stack@,
                    self.ids()[self.focused_spec()],
                ).push(self.ids()[self.focused_spec()]));
            }
        }
        out
    }

    // =========================== Insertion ===========================

    /// The identities of a sequence of elements, in order
    pub open spec fn ids_of(s: Seq<T>) -> Seq<Xid> {
        Seq::new(s.len(), |i: int| s[i].id_spec())
    }

    /// Re-point the index-map entries of every element at or after
    /// `pivot`: one position up before an insertion there, or back to
    /// their true positions after a removal there.
    fn sync_indices(&mut self, pivot: Idx, action: StackAction)
        requires
            pivot as int <= old(self)@.len(),
            forall|i: int, j: int|
                0 <= i < j < old(self).ids().len() ==> old(self).ids()[i] != old(self).ids()[j],
            forall|i: int|
                0 <= i < pivot as int ==> old(self).indices@.contains_key(
                    #[trigger] old(self).ids()[i],
                ) && old(self).indices@[old(self).ids()[i]] == i as usize,
            forall|i: int|
                pivot as int <= i < old(self).ids().len() ==> old(self).indices@.contains_key(
                    #[trigger] old(self).ids()[i],
                ) && old(self).indices@[old(self).ids()[i]] == (if action == StackAction::Insert {
                    i
                } else {
                    i + 1
                }) as usize,
        ensures
            final(self)@ == old(self)@,
            final(self).ids() == old(self).ids(),
            final(self).focused == old(self).focused,
            final(self).stack@ == old(self).stack@,
            final(self).unwindable == old(self).unwindable,
            forall|i: int|
                0 <= i < pivot as int ==> final(self).indices@.contains_key(
                    #[trigger] final(self).ids()[i],
                ) && final(self).indices@[final(self).ids()[i]] == i as usize,
            forall|i: int|
                pivot as int <= i < final(self).ids().len() ==> final(self).indices@.contains_key(
                    #[trigger] final(self).ids()[i],
                ) && final(self).indices@[final(self).ids()[i]] == (if action
                    == StackAction::Insert {
                    i + 1
                } else {
                    i
                }) as usize,
            final(self).indices@.dom() == old(self).indices@.dom(),
    {
        let ghost ids = old(self).ids();
        let len = self.elements.len();
        let mut index: usize = pivot;
        while index < len
            invariant
                pivot <= index <= len,
                len == self@.len(),
                self@ == old(self)@,
                self.focused == old(self).focused,
                self.stack@ == old(self).stack@,
                self.unwindable == old(self).unwindable,
                ids == self.ids(),
                forall|i: int, j: int| 0 <= i < j < ids.len() ==> ids[i] != ids[j],
                forall|i: int|
                    0 <= i < pivot as int ==> self.indices@.contains_key(#[trigger] ids[i])
                        && self.indices@[ids[i]] == i as usize,
                forall|i: int|
                    pivot as int <= i < index as int ==> self.indices@.contains_key(
                        #[trigger] ids[i],
                    ) && self.indices@[ids[i]] == (if action == StackAction::Insert {
                        i + 1
                    } else {
                        i
                    }) as usize,
                forall|i: int|
                    index as int <= i < ids.len() ==> self.indices@.contains_key(
                        #[trigger] ids[i],
                    ) && self.indices@[ids[i]] == (if action == StackAction::Insert {
                        i
                    } else {
                        i + 1
                    }) as usize,
                self.indices@.dom() == old(self).indices@.dom(),
            decreases len - index,
        {
            let id = self.elements[index].id();
            proof {
                assert(id == ids[index as int]);
                assert(self.indices@.contains_key(ids[index as int]));
            }
            let ghost before = self.indices@;
            match action {
                StackAction::Insert => {
                    self.indices.insert(id, index + 1);
                },
                StackAction::Remove => {
                    self.indices.insert(id, index);
                },
            }
            proof {
                assert(self.indices@.dom() =~= old(self).indices@.dom());
                assert forall|i: int|
                    0 <= i < ids.len() && i != index as int implies self.indices@.contains_key(
                        #[trigger] ids[i],
                    ) && self.indices@[ids[i]] == before[ids[i]] by {
                    if i < index as int {
                        assert(ids[i] != ids[index as int]);
                    } else {
                        assert(ids[index as int] != ids[i]);
                    }
                }
            }
            index = index + 1;
        }
    }

    /// Insert an element at the given position; it becomes the focus and
    /// the previously focused identity is recorded in the history
    pub fn insert(&mut self, index: Idx, element: T)
        requires
            old(self).wf(),
            index as int <= old(self)@.len(),
            !old(self).ids().contains(element.id_spec()),
        ensures
            final(self)@ == old(self)@.insert(index as int, element),
            final(self).focused_spec() == index as int,
            final(self).unwindable == old(self).unwindable,
            final(self).stack@ == if old(self).unwindable && old(self).focused_spec() < old(self)@.len() {
                Self::stack_push_spec(old(self).stack@, old(self).ids()[old(self).focused_spec()])
            } else {
                old(self).stack@
            },
            final(self).wf(),
    {
        proof {
            self.lemma_ids_distinct();
        }
        self.push_focused_to_stack();
        self.sync_indices(index, StackAction::Insert);
        proof {
            assert(self.ids() =~= old(self).ids());
        }
        let ghost m1 = self.indices@;
        proof {
            assert(forall|i: int|
                0 <= i < index as int ==> m1.contains_key(#[trigger] old(self).ids()[i])
                    && m1[old(self).ids()[i]] == i as usize);
            assert(forall|i: int|
                index as int <= i < old(self).ids().len() ==> m1.contains_key(
                    #[trigger] old(self).ids()[i],
                ) && m1[old(self).ids()[i]] == (i + 1) as usize);
            assert(forall|xid: Xid| m1.contains_key(xid) ==> old(self).ids().contains(xid));
        }
        let id = element.id();
        self.indices.insert(id, index);
        self.elements.insert(index, element);
        self.focused = index;
        proof {
            let pre = old(self)@;
            let ids0 = old(self).ids();
            let now = self@;
            let idsn = self.ids();
            pre.insert_ensures(index as int, element);
            assert(now == pre.insert(index as int, element));
            assert(old(self).elements.len() == pre.len());
            assert(self.indices@ == m1.insert(element.id_spec(), index));
            assert forall|i: int| 0 <= i < idsn.len() implies self.indices@.contains_key(
                #[trigger] idsn[i],
            ) && self.indices@[idsn[i]] == i as usize by {
                if i < index as int {
                    assert(now[i] == pre[i]);
                    assert(idsn[i] == ids0[i]);
                    assert(ids0[i] != element.id_spec()) by {
                        if ids0[i] == element.id_spec() {
                            assert(ids0.contains(element.id_spec()));
                        }
                    }
                } else if i == index as int {
                    assert(now[i] == element);
                } else {
                    assert(now[i] == pre[i - 1]);
                    assert(idsn[i] == ids0[i - 1]);
                    assert(ids0[i - 1] != element.id_spec()) by {
                        if ids0[i - 1] == element.id_spec() {
                            assert(ids0.contains(element.id_spec()));
                        }
                    }
                }
            }
            assert forall|xid: Xid| self.indices@.contains_key(xid) implies idsn.contains(
                xid,
            ) by {
                if xid == element.id_spec() {
                    assert(idsn[index as int] == xid);
                } else {
                    assert(old(self).indices@.dom().contains(xid));
                    assert(ids0.contains(xid));
                    let k = choose|k: int| 0 <= k < ids0.len() && ids0[k] == xid;
                    if k < index as int {
                        assert(idsn[k] == ids0[k]);
                    } else {
                        assert(idsn[k + 1] == ids0[k]);
                    }
                }
            }
        }
    }

    /// The position at which an [`InsertPoint`] places a new element, if
    /// it names one: past-the-end positions append, identities that are
    /// not present place nothing
    pub open spec fn insert_pos_spec(&self, point: InsertPoint) -> Option<int> {
        let n = self@.len() as int;
        match point {
            InsertPoint::Front => Some(0int),
            InsertPoint::Back => Some(n),
            InsertPoint::BeforeFocused => Some(self.focused_spec()),
            InsertPoint::AfterFocused => if self.focused_spec() + 1 <= n {
                Some(self.focused_spec() + 1)
            } else {
                Some(n)
            },
            InsertPoint::BeforeIndex(i) => if i as int <= n {
                Some(i as int)
            } else {
                Some(n)
            },
            InsertPoint::AfterIndex(i) => if i as int + 1 <= n {
                Some(i as int + 1)
            } else {
                Some(n)
            },
            InsertPoint::BeforeIdent(id) => if self.ids().contains(id) {
                Some(self.ids().index_of(id))
            } else {
                None
            },
            InsertPoint::AfterIdent(id) => if self.ids().contains(id) {
                Some(self.ids().index_of(id) + 1)
            } else {
                None
            },
        }
    }

    /// Prepend the given element; it becomes the focus
    pub fn push_front(&mut self, element: T)
        requires
            old(self).wf(),
            !old(self).ids().contains(element.id_spec()),
        ensures
            final(self)@ == old(self)@.insert(0, element),
            final(self).focused_spec() == 0,
            final(self).unwindable == old(self).unwindable,
            final(self).stack@ == if old(self).unwindable && old(self).focused_spec() < old(self)@.len() {
                Self::stack_push_spec(old(self).stack@, old(self).ids()[old(self).focused_spec()])
            } else {
                old(self).stack@
            },
            final(self).wf(),
    {
        self.insert(0, element);
    }

    /// Append the given element; it becomes the focus
    pub fn push_back(&mut self, element: T)
        requires
            old(self).wf(),
            !old(self).ids().contains(element.id_spec()),
        ensures
            final(self)@ == old(self)@.push(element),
            final(self).focused_spec() == old(self)@.len() as int,
            final(self).unwindable == old(self).unwindable,
            final(self).stack@ == if old(self).unwindable && old(self).focused_spec() < old(self)@.len() {
                Self::stack_push_spec(old(self).stack@, old(self).ids()[old(self).focused_spec()])
            } else {
                old(self).stack@
            },
            final(self).wf(),
    {
        let end = self.elements.len();
        self.insert(end, element);
        proof {
            assert(final(self)@ =~= old(self)@.push(element));
        }
    }

    /// Insert an element at the given [`InsertPoint`]; where the point
    /// names no position (an identity that is not present), nothing
    /// changes
    pub fn insert_at(&mut self, insert_pos: &InsertPoint, element: T)
        requires
            old(self).wf(),
            !old(self).ids().contains(element.id_spec()),
        ensures
            match old(self).insert_pos_spec(*insert_pos) {
                Some(p) => {
                    &&& final(self)@ == old(self)@.insert(p, element)
                    &&& final(self).focused_spec() == p
                    &&& final(self).stack@ == if old(self).unwindable && old(self).focused_spec() < old(self)@.len() {
                        Self::stack_push_spec(
                            old(self).stack@,
                            old(self).ids()[old(self).focused_spec()],
                        )
                    } else {
                        old(self).stack@
                    }
                },
                None => final(self)@ == old(self)@ && final(self).focused == old(self).focused
                    && final(self).stack@ == old(self).stack@ && final(self).indices@ == old(self).indices@,
            },
            final(self).unwindable == old(self).unwindable,
            final(self).wf(),
    {
        proof {
            self.lemma_ids_distinct();
            assert(self.elements.len() == self@.len());
        }
        match insert_pos {
            InsertPoint::Front => {
                self.insert(0, element);
            },
            InsertPoint::Back => {
                let end = self.elements.len();
                self.insert(end, element);
            },
            InsertPoint::BeforeFocused => {
                let index = self.focused;
                self.insert(index, element);
            },
            InsertPoint::AfterFocused => {
                let index = self.focused;
                if index + 1 > self.elements.len() {
                    let end = self.elements.len();
                    self.insert(end, element);
                } else {
                    self.insert(index + 1, element);
                }
            },
            InsertPoint::BeforeIndex(index) => {
                if *index > self.elements.len() {
                    let end = self.elements.len();
                    self.insert(end, element);
                } else {
                    self.insert(*index, element);
                }
            },
            InsertPoint::AfterIndex(index) => {
                if *index >= self.elements.len() {
                    let end = self.elements.len();
                    self.insert(end, element);
                } else {
                    self.insert(*index + 1, element);
                }
            },
            InsertPoint::BeforeIdent(id) => {
                match self.id_to_index(*id) {
                    Some(index) => {
                        self.insert(index, element);
                    },
                    None => {},
                }
            },
            InsertPoint::AfterIdent(id) => {
                match self.id_to_index(*id) {
                    Some(index) => {
                        self.insert(index + 1, element);
                    },
                    None => {},
                }
            },
        }
    }

    // ============================ Removal ============================

    /// Remove the element at the given index from the order alone: the
    /// index map and the history are left untouched, so this is only half
    /// of a removal — [`Ring::remove_for`] is the full operation
    pub fn remove(&mut self, index: Idx) -> (r: Option<T>)
        ensures
            index < old(self)@.len() ==> r == Some(old(self)@[index as int]) && final(self)@
                == old(self)@.remove(index as int),
            index >= old(self)@.len() ==> r is None && final(self)@ == old(self)@,
            final(self).indices@ == old(self).indices@,
            final(self).focused == old(self).focused,
            final(self).stack@ == old(self).stack@,
            final(self).unwindable == old(self).unwindable,
    {
        if index < self.elements.len() {
            Some(self.elements.remove(index))
        } else {
            None
        }
    }

    /// Where the focus and the history move when the element at `pivot`
    /// is removed: a focus before the pivot stays, one after it slides
    /// down, and the focused element's removal unwinds to the most
    /// recently recorded identity that still resolves, or to the last
    /// position.
    pub open spec fn focus_stack_after_remove(
        ids_after: Seq<Xid>,
        focused0: int,
        stack0: Seq<Xid>,
        unwindable: bool,
        pivot: int,
    ) -> (int, Seq<Xid>) {
        if pivot == focused0 {
            if unwindable && stack0.len() > 0 {
                let popped = stack0.last();
                let st = stack0.drop_last();
                if ids_after.contains(popped) {
                    (ids_after.index_of(popped), st)
                } else {
                    (Self::last_index_spec(ids_after.len() as int), st)
                }
            } else {
                (Self::last_index_spec(ids_after.len() as int), stack0)
            }
        } else if pivot < focused0 {
            (focused0 - 1, stack0)
        } else {
            (focused0, stack0)
        }
    }

    /// After an element left the order, scrub it from the index map and
    /// the history, re-point the entries behind it, and move the focus
    fn remove_element(&mut self, index: Idx, element: &Option<T>)
        requires
            match *element {
                Some(e) => {
                    let ids_pre = old(self).ids().insert(index as int, e.id_spec());
                    &&& index as int <= old(self)@.len()
                    &&& old(self).focused as int <= old(self)@.len()
                    &&& old(self).stack_ok()
                    &&& forall|i: int, j: int|
                        0 <= i < j < ids_pre.len() ==> ids_pre[i] != ids_pre[j]
                    &&& forall|i: int|
                        0 <= i < ids_pre.len() ==> old(self).indices@.contains_key(
                            #[trigger] ids_pre[i],
                        ) && old(self).indices@[ids_pre[i]] == i as usize
                    &&& forall|xid: Xid|
                        old(self).indices@.contains_key(xid) ==> ids_pre.contains(xid)
                },
                None => true,
            },
        ensures
            final(self)@ == old(self)@,
            final(self).unwindable == old(self).unwindable,
            match *element {
                Some(e) => {
                    let st1 = Self::stack_remove_spec(old(self).stack@, e.id_spec());
                    let fs = Self::focus_stack_after_remove(
                        old(self).ids(),
                        old(self).focused as int,
                        st1,
                        old(self).unwindable,
                        index as int,
                    );
                    &&& final(self).focused as int == fs.0
                    &&& final(self).stack@ == fs.1
                    &&& final(self).wf()
                },
                None => final(self).focused == old(self).focused && final(self).stack@ == old(self).stack@ && final(self).indices@ == old(self).indices@,
            },
    {
        match element {
            Some(e) => {
                let ghost ids_pre = old(self).ids().insert(index as int, e.id_spec());
                let id = e.id();
                self.remove_from_stack(id);
                proof {
                    Self::lemma_stack_remove_ok(old(self).stack@, id);
                }
                self.indices.remove(&id);
                proof {
                    old(self).ids().insert_ensures(index as int, e.id_spec());
                    assert(ids_pre[index as int] == e.id_spec());
                    assert(self.ids() =~= old(self).ids());
                    assert forall|i: int|
                        0 <= i < self.ids().len() implies self.indices@.contains_key(
                            #[trigger] self.ids()[i],
                        ) && self.indices@[self.ids()[i]] == (if index as int <= i {
                            i + 1
                        } else {
                            i
                        }) as usize by {
                        if i < index as int {
                            assert(self.ids()[i] == ids_pre[i]);
                            assert(ids_pre[i] != ids_pre[index as int]);
                        } else {
                            assert(self.ids()[i] == ids_pre[i + 1]);
                            assert(ids_pre[i + 1] != ids_pre[index as int]);
                        }
                    }
                    assert forall|i: int, j: int|
                        0 <= i < j < self.ids().len() implies self.ids()[i] != self.ids()[j] by {
                        let i0 = if i < index as int {
                            i
                        } else {
                            i + 1
                        };
                        let j0 = if j < index as int {
                            j
                        } else {
                            j + 1
                        };
                        assert(self.ids()[i] == ids_pre[i0]);
                        assert(self.ids()[j] == ids_pre[j0]);
                    }
                }
                self.sync_indices(index, StackAction::Remove);
                proof {
                    assert forall|xid: Xid|
                        self.indices@.contains_key(xid) implies self.ids().contains(xid) by {
                        assert(ids_pre.contains(xid));
                        let k = choose|k: int| 0 <= k < ids_pre.len() && ids_pre[k] == xid;
                        assert(xid != e.id_spec());
                        assert(k != index as int);
                        if k < index as int {
                            assert(self.ids()[k] == ids_pre[k]);
                        } else {
                            assert(self.ids()[k - 1] == ids_pre[k]);
                        }
                    }
                    assert(self.indices_ok());
                }
                if index == self.focused {
                    let mut resolved = false;
                    match self.pop_from_stack() {
                        Some(pid) => {
                            proof {
                                assert(self.indices_ok());
                            }
                            match self.id_to_index(pid) {
                                Some(idx) => {
                                    self.focused = idx;
                                    resolved = true;
                                },
                                None => {},
                            }
                        },
                        None => {},
                    }
                    if !resolved {
                        self.focused = Self::last_index_of(self.elements.len());
                    }
                } else if index < self.focused {
                    if self.focused > 0 {
                        self.focused = self.focused - 1;
                    }
                }
                proof {
                    assert(self.indices_ok());
                }
            },
            None => {},
        }
    }

    /// Remove the element matching the given [`Selector`]: it leaves the
    /// order, the index map and the history, the entries behind it slide
    /// down, and the focus moves as [`Ring::focus_stack_after_remove`]
    /// describes
    pub fn remove_for(&mut self, sel: &Selector) -> (r: Option<T>)
        requires
            old(self).wf(),
        ensures
            final(self).unwindable == old(self).unwindable,
            match old(self).resolve_spec(*sel) {
                None => {
                    &&& r is None
                    &&& final(self)@ == old(self)@
                    &&& final(self).focused == old(self).focused
                    &&& final(self).stack@ == old(self).stack@
                    &&& final(self).indices@ == old(self).indices@
                },
                Some(i) => {
                    let st1 = Self::stack_remove_spec(old(self).stack@, old(self).ids()[i]);
                    let fs = Self::focus_stack_after_remove(
                        Self::ids_of(old(self)@.remove(i)),
                        old(self).focused as int,
                        st1,
                        old(self).unwindable,
                        i,
                    );
                    &&& r == Some(old(self)@[i])
                    &&& final(self)@ == old(self)@.remove(i)
                    &&& final(self).focused as int == fs.0
                    &&& final(self).stack@ == fs.1
                    &&& final(self).wf()
                },
            },
    {
        proof {
            self.lemma_ids_distinct();
            if self.resolve_spec(*sel) is Some {
                self.lemma_resolve_in_bounds(*sel);
            }
            assert(self.elements.len() == self@.len());
        }
        let index = match self.index_for(sel) {
            Some(i) => i,
            None => {
                return None;
            },
        };
        let removed = self.elements.remove(index);
        proof {
            old(self)@.remove_ensures(index as int);
            assert(self@ =~= old(self)@.remove(index as int));
            let ids_pre = self.ids().insert(index as int, removed.id_spec());
            self.ids().insert_ensures(index as int, removed.id_spec());
            assert forall|i: int|
                0 <= i < old(self).ids().len() implies old(self).ids()[i] == ids_pre[i] by {
                if i < index as int {
                    assert(self.ids()[i] == old(self).ids()[i]);
                    assert(ids_pre[i] == self.ids()[i]);
                } else if i == index as int {
                    assert(ids_pre[i] == removed.id_spec());
                    assert(old(self).ids()[i] == removed.id_spec());
                } else {
                    assert(self.ids()[i - 1] == old(self).ids()[i]);
                    assert(ids_pre[i] == self.ids()[i - 1]);
                }
            }
            assert(old(self).ids() =~= ids_pre);
        }
        let element = Some(removed);
        self.remove_element(index, &element);
        element
    }

    // ============================ Rotation ===========================

    /// One step of rotation: forward moves the last element to the front,
    /// backward moves the first element to the back
    pub open spec fn rotate_one_spec(s: Seq<T>, direction: Direction) -> Seq<T> {
        if s.len() == 0 {
            s
        } else {
            match direction {
                Direction::Forward => seq![s.last()] + s.drop_last(),
                Direction::Backward => s.subrange(1, s.len() as int) + seq![s[0]],
            }
        }
    }

    /// `n` steps of rotation in the given direction
    pub open spec fn rotate_n_spec(s: Seq<T>, n: nat, direction: Direction) -> Seq<T>
        decreases n,
    {
        if n == 0 {
            s
        } else {
            Self::rotate_one_spec(Self::rotate_n_spec(s, (n - 1) as nat, direction), direction)
        }
    }

    /// Rotate the elements the given number of steps. Only the order
    /// changes: the index map is not re-pointed here, which
    /// [`Ring::rotate`] does.
    pub fn rotate_by(&mut self, step: Idx, direction: Direction)
        ensures
            final(self)@ == Self::rotate_n_spec(old(self)@, step as nat, direction),
            final(self).indices@ == old(self).indices@,
            final(self).focused == old(self).focused,
            final(self).stack@ == old(self).stack@,
            final(self).unwindable == old(self).unwindable,
    {
        let mut k: usize = 0;
        while k < step
            invariant
                k <= step,
                self@ == Self::rotate_n_spec(old(self)@, k as nat, direction),
                self.indices@ == old(self).indices@,
                self.focused == old(self).focused,
                self.stack@ == old(self).stack@,
                self.unwindable == old(self).unwindable,
            decreases step - k,
        {
            let ghost before = self@;
            if self.elements.len() > 0 {
                match direction {
                    Direction::Forward => {
                        if let Some(x) = self.elements.pop() {
                            self.elements.insert(0, x);
                        }
                        proof {
                            assert(self@ =~= Self::rotate_one_spec(before, direction));
                        }
                    },
                    Direction::Backward => {
                        let x = self.elements.remove(0);
                        self.elements.push(x);
                        proof {
                            assert(self@ =~= Self::rotate_one_spec(before, direction));
                        }
                    },
                }
            }
            k = k + 1;
        }
    }

    /// Rotate the elements one step and re-point the index map; the
    /// focused element stays the same, its position moving with the
    /// rotation
    pub fn rotate(&mut self, direction: Direction)
        requires
            old(self).wf(),
        ensures
            final(self)@ == Self::rotate_one_spec(old(self)@, direction),
            old(self)@.len() == 0 ==> final(self).focused == old(self).focused,
            old(self)@.len() > 0 ==> final(self).focused_spec() == old(self).next_index_spec(
                old(self).focused_spec(),
                direction,
            ),
            old(self).focused_spec() < old(self)@.len() ==> final(self)@[final(self).focused_spec()] == old(self)@[old(self).focused_spec()],
            final(self).stack@ == old(self).stack@,
            final(self).unwindable == old(self).unwindable,
            final(self).wf(),
    {
        proof {
            self.lemma_ids_distinct();
        }
        if !self.elements.is_empty() {
            let nf = self.next_index(direction);
            self.rotate_by(1, direction);
            proof {
                assert(Self::rotate_n_spec(old(self)@, 0, direction) == old(self)@);
                assert(Self::rotate_n_spec(old(self)@, 1, direction) == Self::rotate_one_spec(
                    old(self)@,
                    direction,
                ));
                assert(self@ == Self::rotate_one_spec(old(self)@, direction));
            }
            let ghost idsn = self.ids();
            proof {
                let pre = old(self)@;
                let ids0 = old(self).ids();
                assert forall|i: int, j: int|
                    0 <= i < j < idsn.len() implies idsn[i] != idsn[j] by {
                    let n = pre.len() as int;
                    let i0 = match direction {
                        Direction::Forward => if i == 0 {
                            n - 1
                        } else {
                            i - 1
                        },
                        Direction::Backward => if i == n - 1 {
                            0int
                        } else {
                            i + 1
                        },
                    };
                    let j0 = match direction {
                        Direction::Forward => if j == 0 {
                            n - 1
                        } else {
                            j - 1
                        },
                        Direction::Backward => if j == n - 1 {
                            0int
                        } else {
                            j + 1
                        },
                    };
                    assert(idsn[i] == ids0[i0]);
                    assert(idsn[j] == ids0[j0]);
                    if ids0[i0] == ids0[j0] {
                        if i0 < j0 {
                            assert(ids0[i0] != ids0[j0]);
                        } else if j0 < i0 {
                            assert(ids0[j0] != ids0[i0]);
                        }
                    }
                }
            }
            let len = self.elements.len();
            self.indices.clear();
            let mut i: usize = 0;
            while i < len
                invariant
                    i <= len,
                    len == self@.len(),
                    self@ == Self::rotate_one_spec(old(self)@, direction),
                    self.ids() == idsn,
                    self.focused == old(self).focused,
                    self.stack@ == old(self).stack@,
                    self.unwindable == old(self).unwindable,
                    forall|a: int, b: int| 0 <= a < b < idsn.len() ==> idsn[a] != idsn[b],
                    forall|k: int|
                        0 <= k < i ==> self.indices@.contains_key(#[trigger] idsn[k])
                            && self.indices@[idsn[k]] == k as usize,
                    forall|id: Xid|
                        self.indices@.contains_key(id) ==> exists|k: int|
                            0 <= k < i && #[trigger] idsn[k] == id,
                decreases len - i,
            {
                let id = self.elements[i].id();
                proof {
                    assert(id == idsn[i as int]);
                }
                self.indices.insert(id, i);
                i = i + 1;
            }
            proof {
                assert forall|id: Xid|
                    self.indices@.contains_key(id) implies self.ids().contains(id) by {
                    let k = choose|k: int| 0 <= k < len as int && #[trigger] idsn[k] == id;
                    assert(self.ids()[k] == id);
                }
            }
            self.focused = nf;
            proof {
                let pre = old(self)@;
                let f = old(self).focused_spec();
                if f < pre.len() {
                    match direction {
                        Direction::Forward => {
                            if f == pre.len() - 1 {
                                assert(self@[0] == pre[f]);
                            } else {
                                assert(self@[f + 1] == pre.drop_last()[f]);
                            }
                        },
                        Direction::Backward => {
                            if f == 0 {
                                assert(self@[pre.len() - 1] == pre[0]);
                            } else {
                                assert(self@[f - 1] == pre.subrange(1, pre.len() as int)[f - 1]);
                            }
                        },
                    }
                }
            }
        }
    }

    /// Swap the elements at two positions, keeping the index map pointed
    /// at their new places
    fn swap_elements(&mut self, i: Idx, j: Idx)
        requires
            old(self).wf(),
            i < old(self)@.len(),
            j < old(self)@.len(),
        ensures
            final(self)@ == old(self)@.update(i as int, old(self)@[j as int]).update(
                j as int,
                old(self)@[i as int],
            ),
            final(self).focused == old(self).focused,
            final(self).stack@ == old(self).stack@,
            final(self).unwindable == old(self).unwindable,
            final(self).wf(),
    {
        proof {
            self.lemma_ids_distinct();
        }
        if i == j {
            proof {
                assert(final(self)@ =~= old(self)@.update(i as int, old(self)@[j as int]).update(
                    j as int,
                    old(self)@[i as int],
                ));
            }
            return ;
        }
        let (lo, hi) = if i < j {
            (i, j)
        } else {
            (j, i)
        };
        let id_lo = self.elements[lo].id();
        let id_hi = self.elements[hi].id();
        let b = self.elements.remove(hi);
        let a = self.elements.remove(lo);
        self.elements.insert(lo, b);
        self.elements.insert(hi, a);
        self.indices.insert(id_lo, hi);
        self.indices.insert(id_hi, lo);
        proof {
            let pre = old(self)@;
            let now = self@;
            assert(now =~= pre.update(lo as int, pre[hi as int]).update(hi as int, pre[lo as int]));
            assert(now =~= pre.update(i as int, pre[j as int]).update(j as int, pre[i as int]));
            let ids0 = old(self).ids();
            let idsn = self.ids();
            assert(idsn.len() == ids0.len());
            assert forall|k: int| 0 <= k < idsn.len() implies idsn[k] == (if k == lo as int {
                ids0[hi as int]
            } else if k == hi as int {
                ids0[lo as int]
            } else {
                ids0[k]
            }) by {}
            assert forall|k: int|
                0 <= k < idsn.len() implies self.indices@.contains_key(#[trigger] idsn[k])
                    && self.indices@[idsn[k]] == k as usize by {
                if k == lo as int {
                    assert(idsn[k] == ids0[hi as int]);
                } else if k == hi as int {
                    assert(idsn[k] == ids0[lo as int]);
                    assert(ids0[lo as int] != ids0[hi as int]);
                } else {
                    assert(idsn[k] == ids0[k]);
                    assert(ids0[k] != ids0[lo as int]);
                    assert(ids0[k] != ids0[hi as int]);
                }
            }
            assert forall|xid: Xid|
                self.indices@.contains_key(xid) implies idsn.contains(xid) by {
                if xid == ids0[lo as int] {
                    assert(idsn[hi as int] == xid);
                } else if xid == ids0[hi as int] {
                    assert(idsn[lo as int] == xid);
                } else {
                    assert(old(self).indices@.contains_key(xid));
                    assert(ids0.contains(xid));
                    let k = choose|k: int| 0 <= k < ids0.len() && ids0[k] == xid;
                    assert(idsn[k] == xid);
                }
            }
        }
    }

    /// Swap the elements matching the two [`Selector`]s; where either
    /// resolves to nothing, nothing changes
    pub fn swap(&mut self, sel1: &Selector, sel2: &Selector)
        requires
            old(self).wf(),
        ensures
            match (old(self).resolve_spec(*sel1), old(self).resolve_spec(*sel2)) {
                (Some(i), Some(j)) => final(self)@ == old(self)@.update(i, old(self)@[j]).update(
                    j,
                    old(self)@[i],
                ),
                _ => final(self)@ == old(self)@ && final(self).indices@ == old(self).indices@,
            },
            final(self).focused == old(self).focused,
            final(self).stack@ == old(self).stack@,
            final(self).unwindable == old(self).unwindable,
            final(self).wf(),
    {
        proof {
            if self.resolve_spec(*sel1) is Some {
                self.lemma_resolve_in_bounds(*sel1);
            }
            if self.resolve_spec(*sel2) is Some {
                self.lemma_resolve_in_bounds(*sel2);
            }
            assert(self.elements.len() == self@.len());
        }
        let index1 = self.index_for(sel1);
        if let Some(index1) = index1 {
            let index2 = self.index_for(sel2);
            if let Some(index2) = index2 {
                self.swap_elements(index1, index2);
            }
        }
    }

    // ============================== Focus ============================

    /// Move the focus one step without reordering the elements, recording
    /// the previously focused identity in the history
    pub fn cycle_focused(&mut self, direction: Direction) -> (r: Option<&T>)
        requires
            old(self).wf(),
        ensures
            final(self)@ == old(self)@,
            final(self).focused_spec() == old(self).next_index_spec(
                old(self).focused_spec(),
                direction,
            ),
            final(self).unwindable == old(self).unwindable,
            final(self).stack@ == if old(self).unwindable && old(self).focused_spec() < old(self)@.len() {
                Self::stack_push_spec(old(self).stack@, old(self).ids()[old(self).focused_spec()])
            } else {
                old(self).stack@
            },
            final(self).wf(),
            match r {
                Some(e) => final(self)@.len() > 0 && *e == final(self)@[final(self).focused_spec()],
                None => final(self)@.len() == 0,
            },
    {
        self.push_focused_to_stack();
        self.focused = self.next_index(direction);
        self.focused()
    }

    /// Focus the element matching the [`Selector`], recording the
    /// previously focused identity in the history first. Asking for the
    /// focus itself moves nothing and records nothing.
    pub fn focus_for(&mut self, sel: &Selector) -> (r: Option<&T>)
        requires
            old(self).wf(),
        ensures
            final(self)@ == old(self)@,
            final(self).indices@ == old(self).indices@,
            final(self).unwindable == old(self).unwindable,
            final(self).wf(),
            match old(self).resolve_spec(*sel) {
                None => {
                    &&& r is None
                    &&& final(self).focused == old(self).focused
                    &&& final(self).stack@ == old(self).stack@
                },
                Some(i) => {
                    &&& final(self).focused_spec() == i
                    &&& match r {
                        Some(e) => *e == final(self)@[i],
                        None => false,
                    }
                    &&& final(self).stack@ == match *sel {
                        Selector::Focused | Selector::Any => old(self).stack@,
                        _ => if old(self).unwindable && old(self).focused_spec() < old(self)@.len() {
                            Self::stack_push_spec(
                                old(self).stack@,
                                old(self).ids()[old(self).focused_spec()],
                            )
                        } else {
                            old(self).stack@
                        },
                    }
                },
            },
    {
        proof {
            if self.resolve_spec(*sel) is Some {
                self.lemma_resolve_in_bounds(*sel);
            }
            assert(self.elements.len() == self@.len());
        }
        match sel {
            Selector::Focused | Selector::Any => self.focused(),
            _ => {
                match self.index_for(sel) {
                    Some(index) => {
                        self.push_focused_to_stack();
                        self.focused = index;
                        Some(self.focused_unchecked())
                    },
                    None => None,
                }
            },
        }
    }

    // ============================ Dragging ===========================

    /// The element order after dragging the focused element one step:
    /// at a boundary the whole ring rotates, otherwise the focused
    /// element and its neighbor trade places
    pub open spec fn drag_elems_spec(&self, direction: Direction) -> Seq<T> {
        let f = self.focused_spec();
        let n = self.next_index_spec(f, direction);
        if (f == 0 && direction == Direction::Backward) || (n == 0 && direction
            == Direction::Forward) {
            Self::rotate_one_spec(self@, direction)
        } else {
            self@.update(f, self@[n]).update(n, self@[f])
        }
    }

    /// Drag the focused element one step in the given direction: it moves
    /// one slot (rotating the whole ring at a boundary) and keeps the
    /// focus, while every other element keeps its relative order
    pub fn drag_focused(&mut self, dir: Direction) -> (r: Option<&T>)
        requires
            old(self).wf(),
        ensures
            final(self)@ == old(self).drag_elems_spec(dir),
            final(self).focused_spec() == old(self).next_index_spec(
                old(self).focused_spec(),
                dir,
            ),
            final(self).unwindable == old(self).unwindable,
            final(self).wf(),
            old(self)@.len() == 0 ==> r is None,
            old(self)@.len() > 0 ==> match r {
                Some(e) => *e == old(self)@[old(self).focused_spec()],
                None => false,
            },
    {
        let focused = self.focused;
        let next = self.next_index(dir);
        let wrap = match dir {
            Direction::Backward => focused == 0,
            Direction::Forward => next == 0,
        };
        if wrap {
            // rotating carries the focused element to its new position;
            // the identity it passed over is recorded as the history does
            // for a focus move
            self.rotate(dir);
            self.push_index_to_stack(Some(focused));
            proof {
                assert(self@ == old(self).drag_elems_spec(dir));
            }
            self.focused()
        } else {
            self.swap_elements(focused, next);
            proof {
                assert(self@ == old(self).drag_elems_spec(dir));
            }
            self.cycle_focused(dir)
        }
    }

    // ======================= Predicate queries =======================

    /// Search for the first element satisfying the given predicate,
    /// returning it with its index
    pub fn find_by<F: Fn(&T) -> bool>(&self, f: &F) -> (r: Option<(Idx, &T)>)
        requires
            forall|t: &T| #[trigger] f.requires((t,)),
        ensures
            match r {
                Some((i, e)) => {
                    &&& (i as int) < self@.len()
                    &&& *e == self@[i as int]
                    &&& f.ensures((&self@[i as int],), true)
                    &&& forall|j: int| 0 <= j < i as int ==> f.ensures((&self@[j],), false)
                },
                None => forall|j: int| 0 <= j < self@.len() ==> f.ensures((&self@[j],), false),
            },
    {
        let mut i: usize = 0;
        while i < self.elements.len()
            invariant
                i <= self@.len(),
                forall|t: &T| #[trigger] f.requires((t,)),
                forall|j: int| 0 <= j < i as int ==> f.ensures((&self@[j],), false),
            decreases self@.len() - i,
        {
            if f(&self.elements[i]) {
                return Some((i, &self.elements[i]));
            }
            i = i + 1;
        }
        None
    }

    /// The result of a predicate query is exactly the matching elements,
    /// in ring order: `m` names the increasing positions the results were
    /// drawn from, and every position outside `m` failed the predicate
    pub open spec fn matches_filtered<F: Fn(&T) -> bool>(
        s: Seq<T>,
        f: F,
        r: Seq<&T>,
        m: Seq<int>,
    ) -> bool {
        &&& m.len() == r.len()
        &&& forall|k: int| 0 <= k < m.len() ==> 0 <= #[trigger] m[k] < s.len()
        &&& forall|k: int| 0 <= k < m.len() - 1 ==> #[trigger] m[k] < m[k + 1]
        &&& forall|k: int|
            0 <= k < m.len() ==> #[trigger] r[k] == &s[m[k]] && f.ensures((&s[m[k]],), true)
        &&& forall|j: int|
            #![trigger s[j]]
            0 <= j < s.len() && !m.contains(j) ==> f.ensures((&s[j],), false)
    }

    /// Collect exactly the elements satisfying the given predicate, in
    /// order
    pub fn filter<F: Fn(&T) -> bool>(&self, f: &F) -> (r: Vec<&T>)
        requires
            forall|t: &T| #[trigger] f.requires((t,)),
        ensures
            r@.len() <= self@.len(),
            forall|k: int|
                #![trigger r@[k]]
                0 <= k < r@.len() ==> self@.contains(*r@[k]) && f.ensures((r@[k],), true),
            exists|m: Seq<int>| #[trigger] Self::matches_filtered(self@, *f, r@, m),
    {
        let mut out: Vec<&T> = Vec::new();
        let mut i: usize = 0;
        let ghost mut m: Seq<int> = Seq::empty();
        while i < self.elements.len()
            invariant
                i <= self@.len(),
                out@.len() <= i,
                forall|t: &T| #[trigger] f.requires((t,)),
                m.len() == out@.len(),
                forall|k: int| 0 <= k < m.len() ==> 0 <= #[trigger] m[k] < i as int,
                forall|k: int| 0 <= k < m.len() - 1 ==> #[trigger] m[k] < m[k + 1],
                forall|k: int|
                    0 <= k < m.len() ==> #[trigger] out@[k] == &self@[m[k]] && f.ensures(
                        (&self@[m[k]],),
                        true,
                    ),
                forall|j: int|
                    #![trigger self@[j]]
                    0 <= j < i as int && !m.contains(j) ==> f.ensures((&self@[j],), false),
                forall|k: int|
                    #![trigger out@[k]]
                    0 <= k < out@.len() ==> self@.contains(*out@[k]) && f.ensures(
                        (out@[k],),
                        true,
                    ),
            decreases self@.len() - i,
        {
            let ghost m0 = m;
            if f(&self.elements[i]) {
                out.push(&self.elements[i]);
                proof {
                    m = m.push(i as int);
                    assert(f.ensures((&self@[i as int],), true));
                    assert(out@[out@.len() - 1] == &self@[i as int]);
                    assert forall|j: int|
                        0 <= j < i as int + 1 && !m.contains(j) implies f.ensures(
                        (&#[trigger] self@[j],),
                        false,
                    ) by {
                        if j < i as int {
                            if m0.contains(j) {
                                let k = choose|k: int| 0 <= k < m0.len() && m0[k] == j;
                                assert(m[k] == j);
                            }
                        } else {
                            assert(m[m.len() - 1] == j);
                        }
                    }
                }
            } else {
                proof {
                    assert(f.ensures((&self@[i as int],), false));
                }
            }
            i = i + 1;
        }
        proof {
            assert(Self::matches_filtered(self@, *f, out@, m));
        }
        out
    }

    /// Retrieve the first element satisfying the given predicate
    pub fn get_for_where<F: Fn(&T) -> bool>(&self, f: &F) -> (r: Option<&T>)
        requires
            forall|t: &T| #[trigger] f.requires((t,)),
        ensures
            match r {
                Some(e) => exists|i: int|
                    #![auto]
                    {
                        &&& 0 <= i < self@.len()
                        &&& *e == self@[i]
                        &&& f.ensures((&self@[i],), true)
                        &&& forall|j: int| 0 <= j < i ==> f.ensures((&self@[j],), false)
                    },
                None => forall|j: int| 0 <= j < self@.len() ==> f.ensures((&self@[j],), false),
            },
    {
        match self.find_by(f) {
            Some((_, e)) => Some(e),
            None => None,
        }
    }

    /// Retrieve every element satisfying the given predicate, in order
    pub fn get_all_for_where<F: Fn(&T) -> bool>(&self, f: &F) -> (r: Vec<&T>)
        requires
            forall|t: &T| #[trigger] f.requires((t,)),
        ensures
            r@.len() <= self@.len(),
            forall|k: int|
                #![trigger r@[k]]
                0 <= k < r@.len() ==> self@.contains(*r@[k]) && f.ensures((r@[k],), true),
            exists|m: Seq<int>| #[trigger] Self::matches_filtered(self@, *f, r@, m),
    {
        self.filter(f)
    }

    /// Retrieve the index of the first element satisfying the predicate
    pub fn index_for_where<F: Fn(&T) -> bool>(&self, f: &F) -> (r: Option<Idx>)
        requires
            forall|t: &T| #[trigger] f.requires((t,)),
        ensures
            match r {
                Some(i) => {
                    &&& (i as int) < self@.len()
                    &&& f.ensures((&self@[i as int],), true)
                    &&& forall|j: int| 0 <= j < i as int ==> f.ensures((&self@[j],), false)
                },
                None => forall|j: int| 0 <= j < self@.len() ==> f.ensures((&self@[j],), false),
            },
    {
        match self.find_by(f) {
            Some((i, _)) => Some(i),
            None => None,
        }
    }

    /// Retrieve the index and the first element satisfying the predicate
    pub fn indexed_element_where<F: Fn(&T) -> bool>(&self, f: &F) -> (r: Option<(Idx, &T)>)
        requires
            forall|t: &T| #[trigger] f.requires((t,)),
        ensures
            match r {
                Some((i, e)) => {
                    &&& (i as int) < self@.len()
                    &&& *e == self@[i as int]
                    &&& f.ensures((&self@[i as int],), true)
                    &&& forall|j: int| 0 <= j < i as int ==> f.ensures((&self@[j],), false)
                },
                None => forall|j: int| 0 <= j < self@.len() ==> f.ensures((&self@[j],), false),
            },
    {
        self.find_by(f)
    }


    /// Retrieve the first element satisfying the predicate, for mutation
    pub fn get_for_mut_where<F: Fn(&T) -> bool>(&mut self, f: &F) -> (r: Option<&mut T>)
        requires
            forall|t: &T| #[trigger] f.requires((t,)),
        ensures
            match r {
                Some(e) => exists|i: int|
                    {
                        &&& 0 <= i < old(self)@.len()
                        &&& *e == #[trigger] old(self)@[i]
                        &&& f.ensures((&old(self)@[i],), true)
                        &&& forall|j: int| 0 <= j < i ==> f.ensures((&old(self)@[j],), false)
                        &&& final(self)@ == old(self)@.update(i, *final(e))
                    },
                None => final(self)@ == old(self)@ && forall|j: int|
                    0 <= j < old(self)@.len() ==> f.ensures((&old(self)@[j],), false),
            },
            final(self).indices@ == old(self).indices@,
            final(self).focused == old(self).focused,
            final(self).stack@ == old(self).stack@,
            final(self).unwindable == old(self).unwindable,
    {
        match self.index_for_where(f) {
            Some(index) => Some(&mut self.elements[index]),
            None => None,
        }
    }

    /// Focus the first element satisfying the predicate, recording the
    /// previously focused identity in the history
    pub fn focus_for_where<F: Fn(&T) -> bool>(&mut self, f: &F) -> (r: Option<&T>)
        requires
            old(self).wf(),
            forall|t: &T| #[trigger] f.requires((t,)),
        ensures
            final(self)@ == old(self)@,
            final(self).indices@ == old(self).indices@,
            final(self).unwindable == old(self).unwindable,
            final(self).wf(),
            match r {
                Some(e) => {
                    &&& final(self).focused_spec() < old(self)@.len()
                    &&& *e == old(self)@[final(self).focused_spec()]
                    &&& f.ensures((&old(self)@[final(self).focused_spec()],), true)
                    &&& forall|j: int|
                        0 <= j < final(self).focused_spec() ==> f.ensures((&old(self)@[j],), false)
                    &&& final(self).stack@ == if old(self).unwindable && old(self).focused_spec() < old(self)@.len() {
                        Self::stack_push_spec(
                            old(self).stack@,
                            old(self).ids()[old(self).focused_spec()],
                        )
                    } else {
                        old(self).stack@
                    }
                },
                None => {
                    &&& final(self).focused == old(self).focused
                    &&& final(self).stack@ == old(self).stack@
                    &&& forall|j: int|
                        0 <= j < old(self)@.len() ==> f.ensures((&old(self)@[j],), false)
                },
            },
    {
        match self.index_for_where(f) {
            Some(index) => {
                self.push_focused_to_stack();
                self.focused = index;
                Some(self.focused_unchecked())
            },
            None => None,
        }
    }

    /// Remove the first element satisfying the predicate, with the same
    /// re-sync and focus movement as [`Ring::remove_for`]
    pub fn remove_for_where<F: Fn(&T) -> bool>(&mut self, f: &F) -> (r: Option<T>)
        requires
            old(self).wf(),
            forall|t: &T| #[trigger] f.requires((t,)),
        ensures
            final(self).unwindable == old(self).unwindable,
            match r {
                None => {
                    &&& final(self)@ == old(self)@
                    &&& final(self).focused == old(self).focused
                    &&& final(self).stack@ == old(self).stack@
                    &&& final(self).indices@ == old(self).indices@
                    &&& forall|j: int|
                        0 <= j < old(self)@.len() ==> f.ensures((&old(self)@[j],), false)
                },
                Some(x) => exists|i: int|
                    {
                        let st1 = Self::stack_remove_spec(old(self).stack@, old(self).ids()[i]);
                        let fs = Self::focus_stack_after_remove(
                            Self::ids_of(old(self)@.remove(i)),
                            old(self).focused as int,
                            st1,
                            old(self).unwindable,
                            i,
                        );
                        &&& 0 <= i < old(self)@.len()
                        &&& x == #[trigger] old(self)@[i]
                        &&& f.ensures((&old(self)@[i],), true)
                        &&& forall|j: int| 0 <= j < i ==> f.ensures((&old(self)@[j],), false)
                        &&& final(self)@ == old(self)@.remove(i)
                        &&& final(self).focused as int == fs.0
                        &&& final(self).stack@ == fs.1
                        &&& final(self).wf()
                    },
            },
    {
        proof {
            self.lemma_ids_distinct();
            assert(self.elements.len() == self@.len());
        }
        let index = match self.index_for_where(f) {
            Some(i) => i,
            None => {
                return None;
            },
        };
        let removed = self.elements.remove(index);
        proof {
            old(self)@.remove_ensures(index as int);
            assert(self@ =~= old(self)@.remove(index as int));
            let ids_pre = self.ids().insert(index as int, removed.id_spec());
            self.ids().insert_ensures(index as int, removed.id_spec());
            assert forall|i: int|
                0 <= i < old(self).ids().len() implies old(self).ids()[i] == ids_pre[i] by {
                if i < index as int {
                    assert(self.ids()[i] == old(self).ids()[i]);
                    assert(ids_pre[i] == self.ids()[i]);
                } else if i == index as int {
                    assert(ids_pre[i] == removed.id_spec());
                    assert(old(self).ids()[i] == removed.id_spec());
                } else {
                    assert(self.ids()[i - 1] == old(self).ids()[i]);
                    assert(ids_pre[i] == self.ids()[i - 1]);
                }
            }
            assert(old(self).ids() =~= ids_pre);
        }
        let element = Some(removed);
        self.remove_element(index, &element);
        element
    }

    // ========================== Combinators ==========================

    /// Apply a function to each element, collecting the results
    pub fn map<U, F: Fn(&T) -> U>(&self, f: &F) -> (r: Vec<U>)
        requires
            forall|t: &T| #[trigger] f.requires((t,)),
        ensures
            r@.len() == self@.len(),
            forall|i: int| 0 <= i < self@.len() ==> f.ensures((&self@[i],), #[trigger] r@[i]),
    {
        let mut out: Vec<U> = Vec::new();
        let mut i: usize = 0;
        while i < self.elements.len()
            invariant
                i <= self@.len(),
                out@.len() == i,
                forall|t: &T| #[trigger] f.requires((t,)),
                forall|j: int| 0 <= j < i as int ==> f.ensures((&self@[j],), #[trigger] out@[j]),
            decreases self@.len() - i,
        {
            out.push(f(&self.elements[i]));
            i = i + 1;
        }
        out
    }


    /// Borrow every element, in order
    pub fn iter(&self) -> (r: Vec<&T>)
        ensures
            r@.len() == self@.len(),
            forall|i: int| 0 <= i < self@.len() ==> r@[i] == &self@[i],
    {
        let mut out: Vec<&T> = Vec::new();
        let mut i: usize = 0;
        while i < self.elements.len()
            invariant
                i <= self@.len(),
                out@.len() == i,
                forall|j: int| 0 <= j < i ==> out@[j] == &self@[j],
            decreases self@.len() - i,
        {
            out.push(&self.elements[i]);
            i = i + 1;
        }
        out
    }

    /// Pair each element with its index
    pub fn enumerate(&self) -> (r: Vec<(Idx, &T)>)
        ensures
            r@.len() == self@.len(),
            forall|i: int|
                0 <= i < self@.len() ==> (#[trigger] r@[i]).0 == i && r@[i].1 == &self@[i],
    {
        let mut out: Vec<(Idx, &T)> = Vec::new();
        let mut i: usize = 0;
        while i < self.elements.len()
            invariant
                i <= self@.len(),
                out@.len() == i,
                forall|j: int| 0 <= j < i as int ==> (#[trigger] out@[j]).0 == j && out@[j].1
                    == &self@[j],
            decreases self@.len() - i,
        {
            out.push((i, &self.elements[i]));
            i = i + 1;
        }
        out
    }

    /// Apply a function to the focused element, if one exists
    pub fn on_focused<F: Fn(&T)>(&self, f: &F)
        requires
            forall|t: &T| #[trigger] f.requires((t,)),
    {
        if self.focused < self.elements.len() {
            f(&self.elements[self.focused]);
        }
    }

    /// Replace the focused element with a function of it, if one exists
    pub fn on_focused_mut<F: Fn(&T) -> T>(&mut self, f: &F)
        requires
            forall|t: &T| #[trigger] f.requires((t,)),
        ensures
            final(self).indices@ == old(self).indices@,
            final(self).focused == old(self).focused,
            final(self).stack@ == old(self).stack@,
            final(self).unwindable == old(self).unwindable,
            old(self).focused_spec() < old(self)@.len() ==> exists|v: T|
                #![auto]
                f.ensures((&old(self)@[old(self).focused_spec()],), v) && final(self)@ == old(self)@.update(old(self).focused_spec(), v),
            old(self).focused_spec() >= old(self)@.len() ==> final(self)@ == old(self)@,
    {
        if self.focused < self.elements.len() {
            let v = f(&self.elements[self.focused]);
            let index = self.focused;
            self.elements.set(index, v);
        }
    }

    /// Apply a function to the element matching a [`Selector`], if any
    pub fn apply_for<F: Fn(&T)>(&self, sel: &Selector, f: &F)
        requires
            self.wf(),
            forall|t: &T| #[trigger] f.requires((t,)),
    {
        match self.index_for(sel) {
            Some(index) => {
                f(&self.elements[index]);
            },
            None => {},
        }
    }

    /// Replace the element matching a [`Selector`] with a function of it
    pub fn apply_for_mut<F: Fn(&T) -> T>(&mut self, sel: &Selector, f: &F)
        requires
            old(self).wf(),
            forall|t: &T| #[trigger] f.requires((t,)),
        ensures
            final(self).indices@ == old(self).indices@,
            final(self).focused == old(self).focused,
            final(self).stack@ == old(self).stack@,
            final(self).unwindable == old(self).unwindable,
            match old(self).resolve_spec(*sel) {
                Some(i) => exists|v: T|
                    #![auto]
                    f.ensures((&old(self)@[i],), v) && final(self)@ == old(self)@.update(i, v),
                None => final(self)@ == old(self)@,
            },
    {
        proof {
            if self.resolve_spec(*sel) is Some {
                self.lemma_resolve_in_bounds(*sel);
            }
            assert(self.elements.len() == self@.len());
        }
        match self.index_for(sel) {
            Some(index) => {
                let v = f(&self.elements[index]);
                self.elements.set(index, v);
            },
            None => {},
        }
    }

    /// Apply a function to every element
    pub fn on_all<F: Fn(&T)>(&self, f: &F)
        requires
            forall|t: &T| #[trigger] f.requires((t,)),
    {
        let mut i: usize = 0;
        while i < self.elements.len()
            invariant
                i <= self@.len(),
                forall|t: &T| #[trigger] f.requires((t,)),
            decreases self@.len() - i,
        {
            f(&self.elements[i]);
            i = i + 1;
        }
    }

    /// Replace every element with a function of it
    pub fn on_all_mut<F: Fn(&T) -> T>(&mut self, f: &F)
        requires
            forall|t: &T| #[trigger] f.requires((t,)),
        ensures
            final(self)@.len() == old(self)@.len(),
            forall|i: int|
                0 <= i < old(self)@.len() ==> f.ensures((&old(self)@[i],), #[trigger] final(self)@[i]),
            final(self).indices@ == old(self).indices@,
            final(self).focused == old(self).focused,
            final(self).stack@ == old(self).stack@,
            final(self).unwindable == old(self).unwindable,
    {
        let mut i: usize = 0;
        while i < self.elements.len()
            invariant
                i <= self@.len(),
                self@.len() == old(self)@.len(),
                forall|t: &T| #[trigger] f.requires((t,)),
                forall|j: int| i as int <= j < self@.len() ==> self@[j] == old(self)@[j],
                forall|j: int|
                    0 <= j < i as int ==> f.ensures((&old(self)@[j],), #[trigger] self@[j]),
                self.indices@ == old(self).indices@,
                self.focused == old(self).focused,
                self.stack@ == old(self).stack@,
                self.unwindable == old(self).unwindable,
            decreases self@.len() - i,
        {
            let v = f(&self.elements[i]);
            self.elements.set(i, v);
            i = i + 1;
        }
    }

    /// Apply a function to every element matching a [`Selector`]:
    /// everything for [`Selector::Any`], at most one element otherwise
    pub fn on_all_for<F: Fn(&T)>(&self, f: &F, sel: &Selector)
        requires
            self.wf(),
            forall|t: &T| #[trigger] f.requires((t,)),
    {
        match sel {
            Selector::Any => self.on_all(f),
            _ => self.apply_for(sel, f),
        }
    }

    /// Replace every element matching a [`Selector`] with a function of
    /// it: everything for [`Selector::Any`], at most one element otherwise
    pub fn on_all_for_mut<F: Fn(&T) -> T>(&mut self, f: &F, sel: &Selector)
        requires
            old(self).wf(),
            forall|t: &T| #[trigger] f.requires((t,)),
        ensures
            final(self)@.len() == old(self)@.len(),
            final(self).indices@ == old(self).indices@,
            final(self).focused == old(self).focused,
            final(self).stack@ == old(self).stack@,
            final(self).unwindable == old(self).unwindable,
            match *sel {
                Selector::Any => forall|i: int|
                    0 <= i < old(self)@.len() ==> f.ensures((&old(self)@[i],), #[trigger] final(self)@[i]),
                _ => match old(self).resolve_spec(*sel) {
                    Some(i) => exists|v: T|
                        #![auto]
                        f.ensures((&old(self)@[i],), v) && final(self)@ == old(self)@.update(i, v),
                    None => final(self)@ == old(self)@,
                },
            },
    {
        match sel {
            Selector::Any => self.on_all_mut(f),
            _ => self.apply_for_mut(sel, f),
        }
    }

    /// Replace every element satisfying a predicate with a function of it
    pub fn on_all_for_mut_where<F: Fn(&T) -> T, P: Fn(&T) -> bool>(&mut self, f: &F, p: &P)
        requires
            forall|t: &T| #[trigger] f.requires((t,)),
            forall|t: &T| #[trigger] p.requires((t,)),
        ensures
            final(self)@.len() == old(self)@.len(),
            final(self).indices@ == old(self).indices@,
            final(self).focused == old(self).focused,
            final(self).stack@ == old(self).stack@,
            final(self).unwindable == old(self).unwindable,
            forall|i: int|
                #![trigger old(self)@[i]]
                0 <= i < old(self)@.len() ==> {
                    ||| (final(self)@[i] == old(self)@[i] && p.ensures((&old(self)@[i],), false))
                    ||| (p.ensures((&old(self)@[i],), true) && f.ensures(
                        (&old(self)@[i],),
                        final(self)@[i],
                    ))
                },
    {
        let mut i: usize = 0;
        while i < self.elements.len()
            invariant
                i <= self@.len(),
                self@.len() == old(self)@.len(),
                forall|t: &T| #[trigger] f.requires((t,)),
                forall|t: &T| #[trigger] p.requires((t,)),
                forall|j: int| i as int <= j < self@.len() ==> self@[j] == old(self)@[j],
                forall|j: int|
                    #![trigger old(self)@[j]]
                    0 <= j < i as int ==> {
                        ||| (self@[j] == old(self)@[j] && p.ensures((&old(self)@[j],), false))
                        ||| (p.ensures((&old(self)@[j],), true) && f.ensures(
                            (&old(self)@[j],),
                            self@[j],
                        ))
                    },
                self.indices@ == old(self).indices@,
                self.focused == old(self).focused,
                self.stack@ == old(self).stack@,
                self.unwindable == old(self).unwindable,
            decreases self@.len() - i,
        {
            if p(&self.elements[i]) {
                let v = f(&self.elements[i]);
                self.elements.set(i, v);
            }
            i = i + 1;
        }
    }

    // ============================== Laws =============================

    /// Sync invariant: in a well-formed ring — and every structural
    /// operation both requires and returns one — each identity's
    /// index-map entry equals its element's true position, and the map
    /// holds no identity that is not an element's.
    pub proof fn lemma_sync_invariant(&self)
        requires
            self.wf(),
        ensures
            forall|i: int|
                0 <= i < self@.len() ==> self.indices_view().contains_key(
                    #[trigger] self.ids()[i],
                ) && self.indices_view()[self.ids()[i]] == i as usize,
            forall|id: Xid| self.indices_view().contains_key(id) ==> self.ids().contains(id),
    {
    }

    /// Rotating one step forward and then one step backward — or the
    /// other way round — restores the element order exactly. The focus
    /// follows its element through each rotation, so after the pair of
    /// calls both the focused element and its position are the ones from
    /// before.
    pub proof fn lemma_rotate_roundtrip(s: Seq<T>)
        ensures
            Self::rotate_one_spec(Self::rotate_one_spec(s, Direction::Forward), Direction::Backward)
                == s,
            Self::rotate_one_spec(Self::rotate_one_spec(s, Direction::Backward), Direction::Forward)
                == s,
    {
        if s.len() > 0 {
            let fwd = Self::rotate_one_spec(s, Direction::Forward);
            assert(fwd.len() == s.len());
            assert(Self::rotate_one_spec(fwd, Direction::Backward) =~= s);
            let bwd = Self::rotate_one_spec(s, Direction::Backward);
            assert(bwd.len() == s.len());
            assert(Self::rotate_one_spec(bwd, Direction::Forward) =~= s);
        }
    }

    /// Roundtrip: inserting a fresh element after position `i` and then
    /// immediately removing the element at position `i + 1` restores both
    /// the element order and the focus. `mid` is the state that
    /// [`Ring::insert_at`] with [`InsertPoint::AfterIndex`] leaves behind,
    /// exactly as its contract describes it, and `post` the state that
    /// [`Ring::remove_for`] with [`Selector::Index`] then leaves behind.
    /// The ring must keep an unwind history, its focus must point at an
    /// element, and the new identity must be fresh for the elements and
    /// the history alike.
    pub proof fn lemma_insert_remove_roundtrip(pre: Self, mid: Self, post: Self, i: int, x: T)
        requires
            pre.wf(),
            pre.unwindable_spec(),
            pre.focused_spec() < pre@.len(),
            0 <= i < pre@.len(),
            !pre.ids().contains(x.id_spec()),
            !pre.stack_view().contains(x.id_spec()),
            mid@ == pre@.insert(i + 1, x),
            mid.focused_spec() == i + 1,
            mid.unwindable_spec() == pre.unwindable_spec(),
            mid.stack_view() == Self::stack_push_spec(
                pre.stack_view(),
                pre.ids()[pre.focused_spec()],
            ),
            mid.wf(),
            post@ == mid@.remove(i + 1),
            ({
                let st1 = Self::stack_remove_spec(mid.stack_view(), mid.ids()[i + 1]);
                let fs = Self::focus_stack_after_remove(
                    Self::ids_of(mid@.remove(i + 1)),
                    mid.focused_spec(),
                    st1,
                    mid.unwindable_spec(),
                    i + 1,
                );
                post.focused_spec() == fs.0 && post.stack_view() == fs.1
            }),
        ensures
            post@ == pre@,
            post.focused_spec() == pre.focused_spec(),
    {
        let f = pre.focused_spec();
        let fid = pre.ids()[f];
        pre@.insert_ensures(i + 1, x);
        mid@.remove_ensures(i + 1);
        assert(post@ =~= pre@);

        // the new identity sits at the pivot in the middle state
        assert(mid.ids()[i + 1] == x.id_spec());

        // the history in the middle state ends with the old focus and is
        // free of the fresh identity
        let cleaned = Self::stack_remove_spec(pre.stack_view(), fid);
        Self::lemma_stack_remove_ok_weak(pre.stack_view(), fid, x.id_spec());
        let bounded = if cleaned.len() >= MAX_STACK_LEN as int {
            cleaned.subrange(1, cleaned.len() as int)
        } else {
            cleaned
        };
        assert(mid.stack_view() == bounded.push(fid));
        assert(mid.stack_view().len() > 0);
        assert(mid.stack_view().last() == fid);
        assert(fid != x.id_spec()) by {
            assert(pre.ids()[f] == fid);
            if fid == x.id_spec() {
                assert(pre.ids().contains(x.id_spec()));
            }
        }
        assert(!mid.stack_view().contains(x.id_spec())) by {
            if mid.stack_view().contains(x.id_spec()) {
                let k = choose|k: int|
                    0 <= k < mid.stack_view().len() && mid.stack_view()[k] == x.id_spec();
                if k == mid.stack_view().len() - 1 {
                } else {
                    assert(bounded[k] == x.id_spec());
                    if cleaned.len() >= MAX_STACK_LEN as int {
                        assert(cleaned[k + 1] == x.id_spec());
                        assert(cleaned.contains(x.id_spec()));
                    } else {
                        assert(cleaned.contains(x.id_spec()));
                    }
                }
            }
        }
        mid.stack_view().index_of_first_ensures(x.id_spec());
        let st1 = Self::stack_remove_spec(mid.stack_view(), mid.ids()[i + 1]);
        assert(st1 == mid.stack_view());

        // removing at the focus pops the recorded identity, which still
        // resolves to the old focused position
        let ids_after = Self::ids_of(mid@.remove(i + 1));
        assert(ids_after =~= pre.ids());
        assert(st1.last() == fid);
        assert(ids_after.contains(fid)) by {
            assert(pre.ids()[f] == fid);
        }
        let fs = Self::focus_stack_after_remove(
            ids_after,
            mid.focused_spec(),
            st1,
            mid.unwindable_spec(),
            i + 1,
        );
        assert(fs.0 == ids_after.index_of(fid));
        let k = ids_after.index_of(fid);
        assert(ids_after[k] == fid);
        pre.lemma_ids_distinct();
        if k < f {
            assert(pre.ids()[k] != pre.ids()[f]);
        }
        if f < k {
            assert(pre.ids()[f] != pre.ids()[k]);
        }
        assert(k == f);
    }

    /// A history without one identity still lacks a second identity that
    /// the original history lacked
    proof fn lemma_stack_remove_ok_weak(st: Seq<Xid>, id: Xid, other: Xid)
        requires
            !st.contains(other),
        ensures
            !Self::stack_remove_spec(st, id).contains(other),
    {
        st.index_of_first_ensures(id);
        let cleaned = Self::stack_remove_spec(st, id);
        if st.contains(id) {
            let k = st.index_of_first(id).unwrap();
            st.remove_ensures(k);
            if cleaned.contains(other) {
                let a = choose|a: int| 0 <= a < cleaned.len() && cleaned[a] == other;
                if a < k {
                    assert(st[a] == other);
                } else {
                    assert(st[a + 1] == other);
                }
                assert(st.contains(other));
            }
        }
    }
}

impl<T: Identify + Copy> Ring<T> {
    /// Copy the elements out, in order
    pub fn as_vec(&self) -> (r: Vec<T>)
        ensures
            r@ == self@,
    {
        let mut out: Vec<T> = Vec::new();
        let mut i: usize = 0;
        while i < self.elements.len()
            invariant
                i <= self@.len(),
                out@ == self@.subrange(0, i as int),
            decreases self@.len() - i,
        {
            out.push(self.elements[i]);
            i = i + 1;
        }
        proof {
            assert(out@ =~= self@);
        }
        out
    }
}

} // verus!
