//! Plain values shared by every stage of the pipeline.
use vstd::prelude::*;
use crate::tag::Tag;

verus! {

/// The direction in which a run is written.
#[derive(Clone, Copy, Debug, PartialEq, Eq, Hash, Structural)]
pub enum Direction {
    /// Not set yet.
    Invalid,
    LeftToRight,
    RightToLeft,
    TopToBottom,
    BottomToTop,
}

impl Direction {
    /// Left to right, or right to left.
    pub open spec fn horizontal(self) -> bool {
        self == Direction::LeftToRight || self == Direction::RightToLeft
    }

    /// Top to bottom, or bottom to top.
    pub open spec fn vertical(self) -> bool {
        self == Direction::TopToBottom || self == Direction::BottomToTop
    }

    /// Right to left, or bottom to top: the glyphs come out in reverse.
    pub open spec fn backward(self) -> bool {
        self == Direction::RightToLeft || self == Direction::BottomToTop
    }

    pub fn is_horizontal(self) -> (yes: bool)
        ensures
            yes == self.horizontal(),
    {
        match self {
            Direction::LeftToRight => true,
            Direction::RightToLeft => true,
            _ => false,
        }
    }

    pub fn is_vertical(self) -> (yes: bool)
        ensures
            yes == self.vertical(),
    {
        match self {
            Direction::TopToBottom => true,
            Direction::BottomToTop => true,
            _ => false,
        }
    }

    pub fn is_backward(self) -> (yes: bool)
        ensures
            yes == self.backward(),
    {
        match self {
            Direction::RightToLeft => true,
            Direction::BottomToTop => true,
            _ => false,
        }
    }

    pub fn is_valid(self) -> (yes: bool)
        ensures
            yes == (self != Direction::Invalid),
    {
        match self {
            Direction::Invalid => false,
            _ => true,
        }
    }
}

/// A script, named by its four-letter code. The null tag stands for "not set".
#[derive(Clone, Copy, Debug, PartialEq, Eq, Hash, Structural)]
pub struct Script(pub Tag);

/// The direction in which the script with this code is written by default.
pub open spec fn script_direction(code: u32) -> Direction {
    if code == crate::tag::SCRIPT_ARABIC || code == crate::tag::SCRIPT_HEBREW
        || code == crate::tag::SCRIPT_SYRIAC || code == crate::tag::SCRIPT_THAANA
        || code == crate::tag::SCRIPT_NKO || code == crate::tag::SCRIPT_SAMARITAN
        || code == crate::tag::SCRIPT_MANDAIC || code == crate::tag::SCRIPT_ADLAM {
        Direction::RightToLeft
    } else if code == crate::tag::SCRIPT_MONGOLIAN || code == crate::tag::SCRIPT_PHAGS_PA {
        Direction::TopToBottom
    } else {
        Direction::LeftToRight
    }
}

/// True for the codes that stand for no script of their own: common,
/// inherited and unknown.
pub open spec fn script_is_neutral(code: u32) -> bool {
    code == crate::tag::SCRIPT_COMMON || code == crate::tag::SCRIPT_INHERITED || code
        == crate::tag::SCRIPT_UNKNOWN
}

impl Script {
    /// The script that is not set.
    pub fn unset() -> (script: Script)
        ensures
            script.0.0 == 0,
    {
        Script(Tag(0))
    }

    pub fn is_set(&self) -> (yes: bool)
        ensures
            yes == (self.0.0 != 0),
    {
        self.0.0 != 0
    }

    /// True for the common, inherited and unknown scripts.
    pub fn is_neutral(&self) -> (yes: bool)
        ensures
            yes == script_is_neutral(self.0.0),
    {
        let code: u32 = self.0.0;
        code == crate::tag::SCRIPT_COMMON || code == crate::tag::SCRIPT_INHERITED || code
            == crate::tag::SCRIPT_UNKNOWN
    }

    /// Right to left for the Arabic and Hebrew family, top to bottom for
    /// Mongolian and Phags-pa, left to right for every other script.
    pub fn default_direction(&self) -> (direction: Direction)
        ensures
            direction == script_direction(self.0.0),
    {
        let code: u32 = self.0.0;
        if code == crate::tag::SCRIPT_ARABIC || code == crate::tag::SCRIPT_HEBREW || code
            == crate::tag::SCRIPT_SYRIAC || code == crate::tag::SCRIPT_THAANA || code
            == crate::tag::SCRIPT_NKO || code == crate::tag::SCRIPT_SAMARITAN || code
            == crate::tag::SCRIPT_MANDAIC || code == crate::tag::SCRIPT_ADLAM {
            Direction::RightToLeft
        } else if code == crate::tag::SCRIPT_MONGOLIAN || code == crate::tag::SCRIPT_PHAGS_PA {
            Direction::TopToBottom
        } else {
            Direction::LeftToRight
        }
    }
}

/// A language, named by its language-system tag. The null tag stands for
/// "not set".
#[derive(Clone, Copy, Debug, PartialEq, Eq, Hash, Structural)]
pub struct Language(pub Tag);

impl Language {
    /// The language that is not set.
    pub fn unset() -> (language: Language)
        ensures
            language.0.0 == 0,
    {
        Language(Tag(0))
    }

    pub fn is_set(&self) -> (yes: bool)
        ensures
            yes == (self.0.0 != 0),
    {
        self.0.0 != 0
    }
}

/// Direction, script and language of a run. Two runs with equal properties
/// can share a plan.
#[derive(Clone, Copy, Debug, PartialEq, Eq, Hash, Structural)]
pub struct hb_segment_properties_t {
    pub direction: Direction,
    pub script: Script,
    pub language: Language,
}

impl hb_segment_properties_t {
    /// Properties with nothing set.
    pub fn unset() -> (props: hb_segment_properties_t)
        ensures
            props.direction == Direction::Invalid,
            props.script.0.0 == 0,
            props.language.0.0 == 0,
    {
        hb_segment_properties_t {
            direction: Direction::Invalid,
            script: Script::unset(),
            language: Language::unset(),
        }
    }

    /// Direction, script and language are all set.
    pub open spec fn resolved(self) -> bool {
        self.direction != Direction::Invalid && self.script.0.0 != 0 && self.language.0.0 != 0
    }
}

/// A request to switch a feature on, off, or to a value, over a range of
/// clusters. The range is half open; `start == 0` with `end == u32::MAX`
/// stands for the whole run.
#[derive(Clone, Copy, Debug, PartialEq, Eq, Hash, Structural)]
pub struct Feature {
    pub tag: Tag,
    pub value: u32,
    pub start: u32,
    pub end: u32,
}

impl Feature {
    /// The request holds for the whole run.
    pub open spec fn global(self) -> bool {
        self.start == 0 && self.end == u32::MAX
    }

    /// The request holds for the glyphs of this cluster.
    pub open spec fn covers(self, cluster: u32) -> bool {
        self.start <= cluster < self.end
    }

    pub fn new(tag: Tag, value: u32, start: u32, end: u32) -> (feature: Feature)
        ensures
            feature == (Feature { tag, value, start, end }),
    {
        Feature { tag, value, start, end }
    }

    /// A request for the whole run.
    pub fn whole_run(tag: Tag, value: u32) -> (feature: Feature)
        ensures
            feature == (Feature { tag, value, start: 0, end: u32::MAX }),
            feature.global(),
    {
        Feature { tag, value, start: 0, end: u32::MAX }
    }

    pub fn is_global(&self) -> (yes: bool)
        ensures
            yes == self.global(),
    {
        self.start == 0 && self.end == u32::MAX
    }

    /// A range whose start lies behind its end covers nothing.
    pub fn applies_to(&self, cluster: u32) -> (yes: bool)
        ensures
            yes == self.covers(cluster),
            self.start > self.end ==> !yes,
    {
        self.start <= cluster && cluster < self.end
    }
}

/// The box of a glyph: the bearing of its top left corner from the origin,
/// its width, and its height, which is negative when the box hangs below its
/// top.
#[derive(Clone, Copy, Debug, PartialEq, Eq, Hash, Structural)]
pub struct hb_glyph_extents_t {
    pub x_bearing: i32,
    pub y_bearing: i32,
    pub width: i32,
    pub height: i32,
}

impl hb_glyph_extents_t {
    /// The extents of the box with these corners.
    pub fn from_bounds(
        x_min: i16,
        y_min: i16,
        x_max: i16,
        y_max: i16,
    ) -> (extents: hb_glyph_extents_t)
        ensures
            extents.x_bearing == x_min,
            extents.y_bearing == y_max,
            extents.width == x_max - x_min,
            extents.height == y_min - y_max,
    {
        hb_glyph_extents_t {
            x_bearing: x_min as i32,
            y_bearing: y_max as i32,
            width: x_max as i32 - x_min as i32,
            height: y_min as i32 - y_max as i32,
        }
    }
}

/// Four bytes of per-glyph scratch space that can be read as one 32-bit
/// number, as two 16-bit numbers or as four bytes. The low byte comes first.
#[derive(Clone, Copy, Debug, PartialEq, Eq, Hash, Structural)]
pub struct hb_var_int_t {
    pub b0: u8,
    pub b1: u8,
    pub b2: u8,
    pub b3: u8,
}

impl hb_var_int_t {
    /// The four bytes read as one number.
    pub open spec fn value(self) -> int {
        self.b0 as int + self.b1 as int * 0x100 + self.b2 as int * 0x1_0000 + self.b3 as int
            * 0x100_0000
    }

    /// The low (`index == 0`) or the high 16 bits.
    pub open spec fn half(self, index: int) -> int {
        if index == 0 {
            self.b0 as int + self.b1 as int * 0x100
        } else {
            self.b2 as int + self.b3 as int * 0x100
        }
    }

    /// One of the four bytes; an index past the last reads the last.
    pub open spec fn byte(self, index: int) -> u8 {
        if index == 0 {
            self.b0
        } else if index == 1 {
            self.b1
        } else if index == 2 {
            self.b2
        } else {
            self.b3
        }
    }

    /// A number of `bits` bits read as a signed number.
    pub open spec fn signed(value: int, bits: int) -> int {
        if bits == 8 {
            if value >= 0x80 {
                value - 0x100
            } else {
                value
            }
        } else if bits == 16 {
            if value >= 0x8000 {
                value - 0x1_0000
            } else {
                value
            }
        } else {
            if value >= 0x8000_0000 {
                value - 0x1_0000_0000
            } else {
                value
            }
        }
    }

    pub fn zero() -> (var: hb_var_int_t)
        ensures
            var == (hb_var_int_t { b0: 0, b1: 0, b2: 0, b3: 0 }),
            var.value() == 0,
    {
        hb_var_int_t { b0: 0, b1: 0, b2: 0, b3: 0 }
    }

    pub fn from_u32(value: u32) -> (var: hb_var_int_t)
        ensures
            var.value() == value,
    {
        hb_var_int_t {
            b0: (value % 0x100) as u8,
            b1: ((value / 0x100) % 0x100) as u8,
            b2: ((value / 0x1_0000) % 0x100) as u8,
            b3: (value / 0x100_0000) as u8,
        }
    }

    pub fn as_u32(&self) -> (value: u32)
        ensures
            value == self.value(),
    {
        self.b0 as u32 + self.b1 as u32 * 0x100 + self.b2 as u32 * 0x1_0000 + self.b3 as u32
            * 0x100_0000
    }

    /// The four bytes read as one signed number.
    pub fn as_i32(&self) -> (value: i32)
        ensures
            value == hb_var_int_t::signed(self.value(), 32),
    {
        let unsigned: u32 = self.as_u32();
        if unsigned >= 0x8000_0000 {
            (unsigned - 0x8000_0000) as i32 - 0x7FFF_FFFF - 1
        } else {
            unsigned as i32
        }
    }

    /// Reads the low (`index == 0`) or the high 16 bits as a signed number.
    pub fn i16_at(&self, index: usize) -> (value: i16)
        ensures
            value == hb_var_int_t::signed(self.half(index as int), 16),
    {
        let unsigned: u16 = self.u16_at(index);
        if unsigned >= 0x8000 {
            (unsigned - 0x8000) as i16 - 0x7FFF - 1
        } else {
            unsigned as i16
        }
    }

    /// Reads one byte as a signed number; an index past the last reads the
    /// last.
    pub fn i8_at(&self, index: usize) -> (value: i8)
        ensures
            value == hb_var_int_t::signed(self.byte(index as int) as int, 8),
    {
        let unsigned: u8 = self.u8_at(index);
        if unsigned >= 0x80 {
            (unsigned - 0x80) as i8 - 0x7F - 1
        } else {
            unsigned as i8
        }
    }

    /// Reads the low (`index == 0`) or the high 16 bits.
    pub fn u16_at(&self, index: usize) -> (value: u16)
        ensures
            value == self.half(index as int),
    {
        if index == 0 {
            self.b0 as u16 + self.b1 as u16 * 0x100
        } else {
            self.b2 as u16 + self.b3 as u16 * 0x100
        }
    }

    /// Writes the low (`index == 0`) or the high 16 bits and leaves the other
    /// half as it was.
    pub fn set_u16(&mut self, index: usize, value: u16)
        ensures
            final(self).half(index as int) == value,
            final(self).half(if index == 0 { 1int } else { 0int }) == old(self).half(
                if index == 0 { 1int } else { 0int },
            ),
    {
        let low: u8 = (value % 0x100) as u8;
        let high: u8 = (value / 0x100) as u8;
        if index == 0 {
            self.b0 = low;
            self.b1 = high;
        } else {
            self.b2 = low;
            self.b3 = high;
        }
    }

    /// Reads one byte; an index past the last reads the last.
    pub fn u8_at(&self, index: usize) -> (value: u8)
        ensures
            value == self.byte(index as int),
    {
        if index == 0 {
            self.b0
        } else if index == 1 {
            self.b1
        } else if index == 2 {
            self.b2
        } else {
            self.b3
        }
    }

    /// Writes one byte and leaves the other three as they were; an index past
    /// the last writes the last.
    pub fn set_u8(&mut self, index: usize, value: u8)
        ensures
            *final(self) == (if index == 0 {
                hb_var_int_t { b0: value, ..*old(self) }
            } else if index == 1 {
                hb_var_int_t { b1: value, ..*old(self) }
            } else if index == 2 {
                hb_var_int_t { b2: value, ..*old(self) }
            } else {
                hb_var_int_t { b3: value, ..*old(self) }
            }),
    {
        if index == 0 {
            self.b0 = value;
        } else if index == 1 {
            self.b1 = value;
        } else if index == 2 {
            self.b2 = value;
        } else {
            self.b3 = value;
        }
    }
}

} // verus!
