//! Input into the window manager: modifier masks, mouse buttons and the
//! mouse events built from button presses, releases and motion.

use crate::geometry::Point;
use crate::types::Xid;
use vstd::prelude::*;
use vstd::seq_lib::group_to_multiset_ensures;

verus! {

broadcast use group_to_multiset_ensures;

// ============================= ModMask ==============================

/// A keyboard modifier that can be held during a key or button press
#[derive(Debug, Clone, Copy, PartialEq, Eq, Structural)]
pub enum ModMask {
    /// Left or right shift key
    Shift,
    /// The lock modifier
    Lock,
    /// Left or right control key
    Control,
    /// Modifier 1, usually alt
    Mod1,
    /// Modifier 2, usually num-lock
    Mod2,
    /// Modifier 3, usually unbound
    Mod3,
    /// Modifier 4, usually super
    Mod4,
    /// Modifier 5, usually mode-shift
    Mod5,
    /// Any modifier, the wire protocol's catch-all
    Any,
}

impl ModMask {
    /// The modifier's bit in the wire protocol's state mask
    pub open spec fn bits_spec(self) -> u16 {
        match self {
            ModMask::Shift => 0x0001u16,
            ModMask::Lock => 0x0002u16,
            ModMask::Control => 0x0004u16,
            ModMask::Mod1 => 0x0008u16,
            ModMask::Mod2 => 0x0010u16,
            ModMask::Mod3 => 0x0020u16,
            ModMask::Mod4 => 0x0040u16,
            ModMask::Mod5 => 0x0080u16,
            ModMask::Any => 0x8000u16,
        }
    }

    /// The modifier's bit in the wire protocol's state mask
    pub fn bits(self) -> (r: u16)
        ensures
            r == self.bits_spec(),
    {
        match self {
            ModMask::Shift => 0x0001,
            ModMask::Lock => 0x0002,
            ModMask::Control => 0x0004,
            ModMask::Mod1 => 0x0008,
            ModMask::Mod2 => 0x0010,
            ModMask::Mod3 => 0x0020,
            ModMask::Mod4 => 0x0040,
            ModMask::Mod5 => 0x0080,
            ModMask::Any => 0x8000,
        }
    }

    /// Was this modifier held in the given state mask?
    pub fn was_held(&self, mask: u16) -> (r: bool)
        ensures
            r == (mask & self.bits_spec() != 0),
    {
        mask & self.bits() > 0
    }

    /// A rank that orders the modifiers by declaration, used to keep
    /// modifier lists in one canonical order
    pub open spec fn rank_spec(self) -> u8 {
        match self {
            ModMask::Shift => 0u8,
            ModMask::Lock => 1u8,
            ModMask::Control => 2u8,
            ModMask::Mod1 => 3u8,
            ModMask::Mod2 => 4u8,
            ModMask::Mod3 => 5u8,
            ModMask::Mod4 => 6u8,
            ModMask::Mod5 => 7u8,
            ModMask::Any => 8u8,
        }
    }

    /// The modifier's canonical rank
    pub fn rank(self) -> (r: u8)
        ensures
            r == self.rank_spec(),
    {
        match self {
            ModMask::Shift => 0,
            ModMask::Lock => 1,
            ModMask::Control => 2,
            ModMask::Mod1 => 3,
            ModMask::Mod2 => 4,
            ModMask::Mod3 => 5,
            ModMask::Mod4 => 6,
            ModMask::Mod5 => 7,
            ModMask::Any => 8,
        }
    }
}

// ============================= Keycode ==============================

/// A key press: the keycode together with the held modifier
#[derive(Debug, Clone, Copy, PartialEq, Eq, Structural)]
pub struct Keycode {
    /// Held modifier
    pub mask: ModMask,
    /// Keycode that was pressed
    pub code: u8,
}

// ============================== Button ==============================

/// A button on the mouse
#[derive(Debug, Clone, Copy, PartialEq, Eq, Structural)]
pub enum Button {
    /// Button one, a left click
    Left,
    /// Button two, a middle click
    Middle,
    /// Button three, a right click
    Right,
    /// Button four, a wheel scroll up
    ScrollUp,
    /// Button five, a wheel scroll down
    ScrollDown,
}

impl Button {
    /// The button's index on the wire
    pub open spec fn index_spec(self) -> u8 {
        match self {
            Button::Left => 1u8,
            Button::Middle => 2u8,
            Button::Right => 3u8,
            Button::ScrollUp => 4u8,
            Button::ScrollDown => 5u8,
        }
    }

    /// The button's index on the wire
    pub fn index(self) -> (r: u8)
        ensures
            r == self.index_spec(),
    {
        match self {
            Button::Left => 1,
            Button::Middle => 2,
            Button::Right => 3,
            Button::ScrollUp => 4,
            Button::ScrollDown => 5,
        }
    }

    /// The button with the given wire index: exactly indices one to five
    /// name a button
    pub fn from_index(u: u8) -> (r: Option<Button>)
        ensures
            r == match u {
                1u8 => Some(Button::Left),
                2u8 => Some(Button::Middle),
                3u8 => Some(Button::Right),
                4u8 => Some(Button::ScrollUp),
                5u8 => Some(Button::ScrollDown),
                _ => None::<Button>,
            },
    {
        match u {
            1 => Some(Self::Left),
            2 => Some(Self::Middle),
            3 => Some(Self::Right),
            4 => Some(Self::ScrollUp),
            5 => Some(Self::ScrollDown),
            _ => None,
        }
    }
}

// ============================ MouseState ============================

/// The button and the modifiers held during a mouse event. The modifier
/// list is kept in canonical rank order so that equal combinations
/// compare equal.
#[derive(Debug, Clone)]
pub struct MouseState {
    /// The button being held
    pub button: Button,
    /// The modifiers held, in canonical order
    pub modmask: Vec<ModMask>,
}

/// Is the modifier sequence in canonical rank order?
pub open spec fn masks_sorted(s: Seq<ModMask>) -> bool {
    forall|i: int, j: int|
        0 <= i < j < s.len() ==> (#[trigger] s[i]).rank_spec() <= (#[trigger] s[j]).rank_spec()
}

/// The combined state mask of a modifier sequence
pub open spec fn mask_bits_of(s: Seq<ModMask>) -> u16
    decreases s.len(),
{
    if s.len() == 0 {
        0u16
    } else {
        mask_bits_of(s.drop_last()) | s.last().bits_spec()
    }
}

impl MouseState {
    /// Create a new [`MouseState`], putting the modifiers into canonical
    /// order
    pub fn new(button: Button, modmask: Vec<ModMask>) -> (r: Self)
        ensures
            r.button == button,
            r.modmask@.to_multiset() == modmask@.to_multiset(),
            masks_sorted(r.modmask@),
    {
        Self { button, modmask: Self::sort_masks(modmask) }
    }

    /// Sort a modifier list into canonical rank order
    fn sort_masks(masks: Vec<ModMask>) -> (r: Vec<ModMask>)
        ensures
            r@.to_multiset() == masks@.to_multiset(),
            masks_sorted(r@),
    {
        let mut src = masks;
        let mut out: Vec<ModMask> = Vec::new();
        let ghost orig = src@.to_multiset();
        proof {
            assert(out@.to_multiset().add(src@.to_multiset()) =~= orig);
        }
        while src.len() > 0
            invariant
                out@.to_multiset().add(src@.to_multiset()) == orig,
                masks_sorted(out@),
                forall|i: int, j: int|
                    0 <= i < out@.len() && 0 <= j < src@.len() ==> (#[trigger] out@[i]).rank_spec()
                        <= (#[trigger] src@[j]).rank_spec(),
            decreases src@.len(),
        {
            let mut m: usize = 0;
            let mut k: usize = 1;
            while k < src.len()
                invariant
                    m < k <= src@.len(),
                    src@.len() > 0,
                    forall|j: int|
                        0 <= j < k ==> src@[m as int].rank_spec() <= (#[trigger] src@[j]).rank_spec(),
                decreases src@.len() - k,
            {
                if src[k].rank().lt(&src[m].rank()) {
                    m = k;
                }
                k = k + 1;
            }
            let v = src.remove(m);
            out.push(v);
            proof {
                assert(out@.to_multiset().add(src@.to_multiset()) =~= orig);
                assert(out@.last() == v);
                assert forall|i: int, j: int|
                    0 <= i < j < out@.len() implies (#[trigger] out@[i]).rank_spec() <= (
                #[trigger] out@[j]).rank_spec() by {
                    if j < out@.len() - 1 {
                    } else {
                        if i < out@.len() - 1 {
                        }
                    }
                }
            }
        }
        proof {
            assert(src@.to_multiset().len() == 0);
            assert(out@.to_multiset().add(src@.to_multiset()) =~= out@.to_multiset());
        }
        out
    }

    /// The combined state mask of the held modifiers
    pub fn mask(&self) -> (r: u16)
        ensures
            r == mask_bits_of(self.modmask@),
    {
        let mut acc: u16 = 0;
        let mut i: usize = 0;
        while i < self.modmask.len()
            invariant
                i <= self.modmask@.len(),
                acc == mask_bits_of(self.modmask@.subrange(0, i as int)),
            decreases self.modmask@.len() - i,
        {
            proof {
                let pre = self.modmask@.subrange(0, i as int);
                let pre1 = self.modmask@.subrange(0, i as int + 1);
                assert(pre1.drop_last() =~= pre);
                assert(pre1.last() == self.modmask@[i as int]);
            }
            acc = acc | self.modmask[i].bits();
            i = i + 1;
        }
        proof {
            assert(self.modmask@.subrange(0, self.modmask@.len() as int) =~= self.modmask@);
        }
        acc
    }

    /// The held button's wire index
    pub fn button(&self) -> (r: u8)
        ensures
            r == self.button.index_spec(),
    {
        self.button.index()
    }

    /// Build the [`MouseState`] a wire event describes: the button with
    /// the given index, and every modifier whose bit stands in the state
    /// mask, in canonical order
    pub fn from_event(detail: u8, state: u16) -> (r: Option<MouseState>)
        ensures
            match r {
                Some(ms) => {
                    &&& Some(ms.button) == Button::from_index_spec(detail)
                    &&& masks_sorted(ms.modmask@)
                    &&& forall|i: int|
                        0 <= i < ms.modmask@.len() ==> state & (#[trigger] ms.modmask@[i]).bits_spec()
                            != 0
                    &&& forall|m: ModMask|
                        state & #[trigger] m.bits_spec() != 0 ==> ms.modmask@.contains(m)
                },
                None => Button::from_index_spec(detail) is None,
            },
    {
        let button = match Button::from_index(detail) {
            Some(b) => b,
            None => {
                return None;
            },
        };
        let mut held: Vec<ModMask> = Vec::new();
        let mut i: usize = 0;
        while i < 9
            invariant
                i <= 9,
                forall|k: int|
                    0 <= k < held@.len() ==> state & (#[trigger] held@[k]).bits_spec() != 0,
                forall|k: int|
                    0 <= k < held@.len() ==> (#[trigger] held@[k]).rank_spec() < i,
                masks_sorted(held@),
                forall|m: ModMask|
                    (#[trigger] m.rank_spec()) < i && state & m.bits_spec() != 0
                        ==> held@.contains(m),
            decreases 9 - i,
        {
            let m = match i {
                0 => ModMask::Shift,
                1 => ModMask::Lock,
                2 => ModMask::Control,
                3 => ModMask::Mod1,
                4 => ModMask::Mod2,
                5 => ModMask::Mod3,
                6 => ModMask::Mod4,
                7 => ModMask::Mod5,
                _ => ModMask::Any,
            };
            proof {
                assert(m.rank_spec() == i);
                assert(forall|mm: ModMask| (#[trigger] mm.rank_spec()) == i ==> mm == m);
            }
            let ghost held0 = held@;
            if m.was_held(state) {
                held.push(m);
                proof {
                    assert(held@[held@.len() - 1] == m);
                    assert forall|mm: ModMask|
                        (#[trigger] mm.rank_spec()) < i + 1 && state & mm.bits_spec() != 0
                        implies held@.contains(mm) by {
                        if mm.rank_spec() < i {
                            let k = choose|k: int| 0 <= k < held0.len() && held0[k] == mm;
                            assert(held@[k] == mm);
                        } else {
                            assert(held@[held@.len() - 1] == mm);
                        }
                    }
                }
            }
            i = i + 1;
        }
        proof {
            assert forall|m: ModMask|
                state & #[trigger] m.bits_spec() != 0 implies held@.contains(m) by {
                assert(m.rank_spec() < 9);
            }
        }
        Some(MouseState { button, modmask: held })
    }
}

impl Button {
    /// The button the given wire index names, if any
    pub open spec fn from_index_spec(u: u8) -> Option<Button> {
        match u {
            1u8 => Some(Button::Left),
            2u8 => Some(Button::Middle),
            3u8 => Some(Button::Right),
            4u8 => Some(Button::ScrollUp),
            5u8 => Some(Button::ScrollDown),
            _ => None,
        }
    }
}

// ============================ MouseEvent ============================

/// The kind of a mouse event
#[derive(Debug, Clone, Copy, PartialEq, Eq, Structural)]
pub enum MouseEventKind {
    /// A button was pressed
    Press,
    /// A button was released
    Release,
    /// The mouse moved while a button was held
    Motion,
}

/// Where a mouse binding is grabbed
#[derive(Debug, Clone, Copy, PartialEq, Eq, Structural)]
pub enum EventTarget {
    /// Everywhere
    Global,
    /// On the root window
    Root,
    /// On a client window
    Client,
}

/// The key a mouse binding is looked up under
#[derive(Debug, Clone, Copy, PartialEq, Eq, Structural)]
pub struct MouseEventKey {
    /// The kind of event
    pub kind: MouseEventKind,
    /// Where the binding applies
    pub target: EventTarget,
}

/// A mouse event, with the pointer's position relative to the root and
/// to the window it happened on
#[derive(Debug, Clone)]
pub struct MouseEvent {
    /// The kind of event
    pub kind: MouseEventKind,
    /// The window the event happened on
    pub window: Xid,
    /// The child window under the pointer, if any
    pub subwindow: Option<Xid>,
    /// Did the event happen on the root window?
    pub on_root: bool,
    /// The pointer's position relative to the root
    pub root_rpos: Point,
    /// The pointer's position relative to the window
    pub window_rpos: Point,
    /// The button and modifiers held
    pub shortcut: MouseState,
}

impl MouseEvent {
    /// Build a [`MouseEvent`] from the fields a wire event carries
    pub fn new(
        kind: MouseEventKind,
        window: Xid,
        subwindow: Option<Xid>,
        root: Xid,
        root_rx: i16,
        root_ry: i16,
        window_rx: i16,
        window_ry: i16,
        shortcut: MouseState,
    ) -> (r: Self)
        ensures
            r.kind == kind,
            r.window == window,
            r.subwindow == subwindow,
            r.on_root == (window == root),
            r.root_rpos == (Point { x: root_rx as i32, y: root_ry as i32 }),
            r.window_rpos == (Point { x: window_rx as i32, y: window_ry as i32 }),
            r.shortcut == shortcut,
    {
        Self {
            kind,
            window,
            subwindow,
            on_root: window == root,
            root_rpos: Point { x: root_rx as i32, y: root_ry as i32 },
            window_rpos: Point { x: window_rx as i32, y: window_ry as i32 },
            shortcut,
        }
    }
}

// ========================== Pointer actions =========================

/// What a pointer binding does when its modifier and button are held
#[derive(Debug, Clone, Copy, PartialEq, Eq, Structural)]
pub enum PointerAction {
    /// No action is performed
    NoAction,
    /// The window becomes focused
    Focus,
    /// The window is moved
    Move,
    /// A side of the window is dragged to resize it
    ResizeSide,
    /// A corner of the window is dragged to resize it
    ResizeCorner,
}

/// The three configurable pointer actions, one per button
#[derive(Debug, Clone, Copy, PartialEq, Eq, Structural)]
pub struct PointerActions {
    /// Action performed for the first button
    pub pointer_action1: Option<PointerAction>,
    /// Action performed for the second button
    pub pointer_action2: Option<PointerAction>,
    /// Action performed for the third button
    pub pointer_action3: Option<PointerAction>,
}

impl PointerActions {
    /// Create a new [`PointerActions`] with all three actions set
    pub fn new(a1: PointerAction, a2: PointerAction, a3: PointerAction) -> (r: Self)
        ensures
            r == (PointerActions {
                pointer_action1: Some(a1),
                pointer_action2: Some(a2),
                pointer_action3: Some(a3),
            }),
    {
        Self {
            pointer_action1: Some(a1),
            pointer_action2: Some(a2),
            pointer_action3: Some(a3),
        }
    }
}

} // verus!
