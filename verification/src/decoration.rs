//! Window decorations: borders, frames, the padding they add around a
//! window, and the color schemes they are drawn with.

use crate::geometry::{Extents, Padding};
use vstd::prelude::*;

verus! {

/// A color, packed as `0xRRGGBB`
pub type Color = u32;

// =========================== Colorscheme ============================

/// The colors a decoration is drawn with, one per window state
#[derive(Debug, Clone, Copy, PartialEq, Eq, Structural)]
pub struct Colorscheme {
    /// Color of an unfocused window
    pub normal: Color,
    /// Color of the active window
    pub active: Color,
    /// Color of the focused window
    pub focused: Color,
    /// Color of a window demanding attention
    pub urgent: Color,
}

impl Default for Colorscheme {
    /// The built-in color scheme
    fn default() -> (r: Self)
        ensures
            r == (Colorscheme {
                normal: 0x4C566Au32,
                active: 0x1E1E1Eu32,
                focused: 0xA98698u32,
                urgent: 0xEF1D55u32,
            }),
    {
        Colorscheme { normal: 0x4C566A, active: 0x1E1E1E, focused: 0xA98698, urgent: 0xEF1D55 }
    }
}

// ============================ Hex colors ============================

/// The value of one ASCII hexadecimal digit, in either case
pub open spec fn hex_digit_spec(b: u8) -> Option<u8> {
    if 0x30 <= b <= 0x39 {
        Some((b - 0x30) as u8)
    } else if 0x41 <= b <= 0x46 {
        Some((b - 0x41 + 10) as u8)
    } else if 0x61 <= b <= 0x66 {
        Some((b - 0x61 + 10) as u8)
    } else {
        None
    }
}

/// The value of a string of hexadecimal digits, most significant first;
/// nothing if any byte is no digit
pub open spec fn hex_val_spec(s: Seq<u8>) -> Option<int>
    decreases s.len(),
{
    if s.len() == 0 {
        Some(0int)
    } else {
        match (hex_val_spec(s.drop_last()), hex_digit_spec(s.last())) {
            (Some(v), Some(d)) => Some(v * 16 + d),
            _ => None,
        }
    }
}

/// Sixteen to the given power
pub open spec fn pow16(n: nat) -> int
    decreases n,
{
    if n == 0 {
        1
    } else {
        16 * pow16((n - 1) as nat)
    }
}

/// The color a configuration string denotes: six hexadecimal digits,
/// optionally prefixed by `0x` or `#`; anything else denotes no color
pub open spec fn parse_color_spec(s: Seq<u8>) -> Option<u32> {
    let t = if s.len() >= 2 && s[0] == 0x30 && s[1] == 0x78 {
        s.subrange(2, s.len() as int)
    } else if s.len() >= 1 && s[0] == 0x23 {
        s.subrange(1, s.len() as int)
    } else {
        s
    };
    if t.len() == 6 {
        match hex_val_spec(t) {
            Some(v) => Some(v as u32),
            None => None,
        }
    } else {
        None
    }
}

/// Parse a configuration color string, given as its bytes: six
/// hexadecimal digits, optionally prefixed by `0x` or `#`
pub fn parse_color(s: &[u8]) -> (r: Option<u32>)
    ensures
        r == parse_color_spec(s@),
{
    let n = s.len();
    let start: usize = if n >= 2 && s[0] == 0x30 && s[1] == 0x78 {
        2
    } else if n >= 1 && s[0] == 0x23 {
        1
    } else {
        0
    };
    let ghost t = if start == 2 {
        s@.subrange(2, s@.len() as int)
    } else if start == 1 {
        s@.subrange(1, s@.len() as int)
    } else {
        s@
    };
    if n - start != 6 {
        return None;
    }
    let mut acc: u32 = 0;
    let mut i: usize = 0;
    proof {
        assert(t =~= s@.subrange(start as int, s@.len() as int));
        assert(t.subrange(0, 0) =~= Seq::<u8>::empty());
    }
    while i < 6
        invariant
            i <= 6,
            n == s@.len(),
            start + 6 == s@.len(),
            t == s@.subrange(start as int, s@.len() as int),
            t.len() == 6,
            hex_val_spec(t.subrange(0, i as int)) == Some(acc as int),
            acc < pow16(i as nat),
            acc < 0x1000000,
            parse_color_spec(s@) == match hex_val_spec(t) {
                Some(v) => Some(v as u32),
                None => None::<u32>,
            },
        decreases 6 - i,
    {
        let b = s[start + i];
        let d: u32 = if b >= 0x30 && b <= 0x39 {
            (b - 0x30) as u32
        } else if b >= 0x41 && b <= 0x46 {
            (b - 0x41 + 10) as u32
        } else if b >= 0x61 && b <= 0x66 {
            (b - 0x61 + 10) as u32
        } else {
            proof {
                assert(t.subrange(0, 6) =~= t);
                lemma_prefix_none(t, i as int);
            }
            return None;
        };
        proof {
            let pre = t.subrange(0, i as int);
            let pre1 = t.subrange(0, i as int + 1);
            assert(pre1.drop_last() =~= pre);
            assert(pre1.last() == t[i as int]);
            assert(t[i as int] == s@[start + i]);
            assert(pow16((i + 1) as nat) == 16 * pow16(i as nat));
            assert(pow16(0nat) == 1);
            assert(pow16(1nat) == 16);
            assert(pow16(2nat) == 0x100);
            assert(pow16(3nat) == 0x1000);
            assert(pow16(4nat) == 0x10000);
            assert(pow16(5nat) == 0x100000);
            assert(pow16(6nat) == 0x1000000);
        }
        acc = acc * 16 + d;
        i = i + 1;
    }
    proof {
        assert(t.subrange(0, 6) =~= t);
    }
    Some(acc)
}

/// A digit string with a non-digit somewhere has no value
proof fn lemma_prefix_none(t: Seq<u8>, i: int)
    requires
        0 <= i < t.len(),
        hex_digit_spec(t[i]) is None,
    ensures
        hex_val_spec(t) is None,
    decreases t.len(),
{
    if i == t.len() - 1 {
    } else {
        lemma_prefix_none(t.drop_last(), i);
    }
}

// ============================== Border ==============================

/// A plain border around a window
#[derive(Debug, Clone, Copy, PartialEq, Eq, Structural)]
pub struct Border {
    /// Width of the border
    pub width: u32,
    /// Colors of the border, per window state
    pub colors: Colorscheme,
}

/// A frame around a window, with its own extents per side
#[derive(Debug, Clone, Copy, PartialEq, Eq, Structural)]
pub struct Frame {
    /// The frame's extents
    pub extents: Extents,
    /// Colors of the frame, per window state
    pub colors: Colorscheme,
}

/// A window's decoration: an optional border and an optional frame
#[derive(Debug, Clone, Copy, PartialEq, Eq, Structural)]
pub struct Decoration {
    /// The border, if the window has one
    pub border: Option<Border>,
    /// The frame, if the window has one
    pub frame: Option<Frame>,
}

impl Decoration {
    /// The width the decoration's border adds on every side
    pub open spec fn border_width_spec(self) -> int {
        match self.border {
            Some(b) => b.width as int,
            None => 0,
        }
    }

    /// The extents the decoration's frame adds, per side
    pub open spec fn frame_extents_spec(self) -> (int, int, int, int) {
        match self.frame {
            Some(f) => (
                f.extents.top as int,
                f.extents.right as int,
                f.extents.bottom as int,
                f.extents.left as int,
            ),
            None => (0, 0, 0, 0),
        }
    }

    /// The total extents this decoration adds around a window: the
    /// border's width plus the frame's extents, per side
    pub fn extents(&self) -> (r: Extents)
        requires
            self.border_width_spec() + self.frame_extents_spec().0 <= u32::MAX,
            self.border_width_spec() + self.frame_extents_spec().1 <= u32::MAX,
            self.border_width_spec() + self.frame_extents_spec().2 <= u32::MAX,
            self.border_width_spec() + self.frame_extents_spec().3 <= u32::MAX,
        ensures
            r.top == self.border_width_spec() + self.frame_extents_spec().0,
            r.right == self.border_width_spec() + self.frame_extents_spec().1,
            r.bottom == self.border_width_spec() + self.frame_extents_spec().2,
            r.left == self.border_width_spec() + self.frame_extents_spec().3,
    {
        let empty = Padding { top: 0, right: 0, bottom: 0, left: 0 };
        empty.add_decoration(*self)
    }
}

impl Padding {
    /// Widen this padding by a border on every side
    pub fn add_border(self, border: Border) -> (r: Padding)
        requires
            self.top + border.width <= u32::MAX,
            self.right + border.width <= u32::MAX,
            self.bottom + border.width <= u32::MAX,
            self.left + border.width <= u32::MAX,
        ensures
            r.top == self.top + border.width,
            r.right == self.right + border.width,
            r.bottom == self.bottom + border.width,
            r.left == self.left + border.width,
    {
        Padding {
            top: self.top + border.width,
            right: self.right + border.width,
            bottom: self.bottom + border.width,
            left: self.left + border.width,
        }
    }

    /// Widen this padding by a frame's extents
    pub fn add_frame(self, frame: Frame) -> (r: Padding)
        requires
            self.top + frame.extents.top <= u32::MAX,
            self.right + frame.extents.right <= u32::MAX,
            self.bottom + frame.extents.bottom <= u32::MAX,
            self.left + frame.extents.left <= u32::MAX,
        ensures
            r.top == self.top + frame.extents.top,
            r.right == self.right + frame.extents.right,
            r.bottom == self.bottom + frame.extents.bottom,
            r.left == self.left + frame.extents.left,
    {
        Padding {
            top: self.top + frame.extents.top,
            right: self.right + frame.extents.right,
            bottom: self.bottom + frame.extents.bottom,
            left: self.left + frame.extents.left,
        }
    }

    /// Widen this padding by whatever the decoration carries
    pub fn add_decoration(self, decoration: Decoration) -> (r: Padding)
        requires
            self.top + decoration.border_width_spec() + decoration.frame_extents_spec().0
                <= u32::MAX,
            self.right + decoration.border_width_spec() + decoration.frame_extents_spec().1
                <= u32::MAX,
            self.bottom + decoration.border_width_spec() + decoration.frame_extents_spec().2
                <= u32::MAX,
            self.left + decoration.border_width_spec() + decoration.frame_extents_spec().3
                <= u32::MAX,
        ensures
            r.top == self.top + decoration.border_width_spec()
                + decoration.frame_extents_spec().0,
            r.right == self.right + decoration.border_width_spec()
                + decoration.frame_extents_spec().1,
            r.bottom == self.bottom + decoration.border_width_spec()
                + decoration.frame_extents_spec().2,
            r.left == self.left + decoration.border_width_spec()
                + decoration.frame_extents_spec().3,
    {
        let mut out = self;
        if let Some(border) = decoration.border {
            out = out.add_border(border);
        }
        if let Some(frame) = decoration.frame {
            out = out.add_frame(frame);
        }
        out
    }
}

} // verus!
