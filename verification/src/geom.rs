//! Desktop geometry as the library carries it.
//!
//! Coordinates are double precision numbers. The library stores, sends and
//! compares them for identity only, so they are held by their bit pattern; the
//! arithmetic on them belongs to the program around the library.

use vstd::prelude::*;

verus! {

/// A double precision number, by its IEEE 754 bit pattern.
#[derive(Clone, Copy, Debug, PartialEq, Eq, Structural)]
pub struct Double {
    pub bits: u64,
}

impl Double {
    /// The bit pattern of 0.0.
    pub const ZERO_BITS: u64 = 0;

    /// The bit pattern of 1.0.
    pub const ONE_BITS: u64 = 0x3ff0_0000_0000_0000;

    /// The bit pattern of 2.0.
    pub const TWO_BITS: u64 = 0x4000_0000_0000_0000;

    /// The bit pattern of 1920.0.
    pub const FALLBACK_WIDTH_BITS: u64 = 0x409e_0000_0000_0000;

    /// The bit pattern of 1080.0.
    pub const FALLBACK_HEIGHT_BITS: u64 = 0x4090_e000_0000_0000;

    /// The number with the given bit pattern.
    pub fn from_bits(bits: u64) -> (out: Double)
        ensures
            out.bits == bits,
    {
        Double { bits }
    }
}

/// A point in desktop pixel space.
#[derive(Clone, Copy, Debug, PartialEq, Eq, Structural)]
pub struct Point {
    pub x: Double,
    pub y: Double,
}

/// The origin of desktop pixel space.
pub open spec fn origin() -> Point {
    Point { x: Double { bits: 0 }, y: Double { bits: 0 } }
}

impl Point {
    /// The origin.
    pub fn zero() -> (out: Point)
        ensures
            out == origin(),
    {
        Point { x: Double { bits: 0 }, y: Double { bits: 0 } }
    }

    pub fn new(x: Double, y: Double) -> (out: Point)
        ensures
            out == (Point { x, y }),
    {
        Point { x, y }
    }
}

impl DeepView for Point {
    type V = Point;

    open spec fn deep_view(&self) -> Point {
        *self
    }
}

/// An axis aligned rectangle in desktop pixel space.
#[derive(Clone, Copy, Debug, PartialEq, Eq, Structural)]
pub struct Rect {
    pub x: Double,
    pub y: Double,
    pub width: Double,
    pub height: Double,
}

impl Rect {
    pub fn new(x: Double, y: Double, width: Double, height: Double) -> (out: Rect)
        ensures
            out == (Rect { x, y, width, height }),
    {
        Rect { x, y, width, height }
    }
}

/// A single attached display.
#[derive(Debug, PartialEq)]
pub struct DisplayInfo {
    pub id: String,
    pub name: String,
    /// Bounds in the platform's global desktop coordinate space.
    pub bounds: Rect,
    pub scale_factor: Double,
    pub is_primary: bool,
}

#[verifier::ext_equal]
pub struct DisplayModel {
    pub id: Seq<char>,
    pub name: Seq<char>,
    pub bounds: Rect,
    pub scale_factor: Double,
    pub is_primary: bool,
}

impl DeepView for DisplayInfo {
    type V = DisplayModel;

    open spec fn deep_view(&self) -> DisplayModel {
        DisplayModel {
            id: self.id@,
            name: self.name@,
            bounds: self.bounds,
            scale_factor: self.scale_factor,
            is_primary: self.is_primary,
        }
    }
}

impl Clone for DisplayInfo {
    fn clone(&self) -> (out: Self)
        ensures
            out.deep_view() == self.deep_view(),
    {
        DisplayInfo {
            id: self.id.clone(),
            name: self.name.clone(),
            bounds: self.bounds,
            scale_factor: self.scale_factor,
            is_primary: self.is_primary,
        }
    }
}

/// A copy of a display list.
pub fn clone_displays(displays: &Vec<DisplayInfo>) -> (out: Vec<DisplayInfo>)
    ensures
        out.deep_view() == displays.deep_view(),
{
    let out = displays.clone();
    assert(out.deep_view() =~= displays.deep_view());
    out
}

/// Which edge of a rectangle a transition happens on.
#[derive(Clone, Copy, Debug, PartialEq, Eq, Hash, Structural)]
pub enum Side {
    Left,
    Right,
    Top,
    Bottom,
}

impl Side {
    pub const ALL: [Side; 4] = [Side::Left, Side::Right, Side::Top, Side::Bottom];

    /// The edge across the rectangle.
    pub open spec fn across(self) -> Side {
        match self {
            Side::Left => Side::Right,
            Side::Right => Side::Left,
            Side::Top => Side::Bottom,
            Side::Bottom => Side::Top,
        }
    }

    pub fn opposite(self) -> (out: Side)
        ensures
            out == self.across(),
    {
        match self {
            Side::Left => Side::Right,
            Side::Right => Side::Left,
            Side::Top => Side::Bottom,
            Side::Bottom => Side::Top,
        }
    }

    /// True when crossing this edge moves along the horizontal axis.
    pub fn is_horizontal(self) -> (out: bool)
        ensures
            out == (self == Side::Left || self == Side::Right),
    {
        matches!(self, Side::Left | Side::Right)
    }

    /// The word for an edge.
    pub open spec fn word(self) -> Seq<char> {
        match self {
            Side::Left => "left"@,
            Side::Right => "right"@,
            Side::Top => "top"@,
            Side::Bottom => "bottom"@,
        }
    }

    pub fn label(self) -> (out: &'static str)
        ensures
            out@ == self.word(),
    {
        match self {
            Side::Left => "left",
            Side::Right => "right",
            Side::Top => "top",
            Side::Bottom => "bottom",
        }
    }
}

impl DeepView for Side {
    type V = Side;

    open spec fn deep_view(&self) -> Side {
        *self
    }
}

/// Going across twice comes back, no edge is its own opposite, and a crossing keeps
/// its axis.
pub proof fn law_opposite_is_an_involution(side: Side)
    ensures
        side.across().across() == side,
        side.across() != side,
        (side == Side::Left || side == Side::Right) == (side.across() == Side::Left
            || side.across() == Side::Right),
{
}

} // verus!
