//! Plain values that describe where and how something is drawn.
//!
//! Lengths are whole layout units; the embedding program decides what a
//! unit is on screen (a pixel, or a fraction of one).

use vstd::prelude::*;

verus! {

/// A colour as four 8-bit channels.
#[derive(Debug, Clone, Copy, PartialEq, Eq, Structural)]
pub struct Color {
    pub r: u8,
    pub g: u8,
    pub b: u8,
    pub a: u8,
}

impl Color {
    /// A colour from its four channels.
    pub fn new(r: u8, g: u8, b: u8, a: u8) -> (c: Color)
        ensures
            c == (Color { r, g, b, a }),
    {
        Color { r, g, b, a }
    }

    /// Opaque white: the colour of text that asks for none.
    pub open spec fn spec_white() -> Color {
        Color { r: 255, g: 255, b: 255, a: 255 }
    }

    /// Opaque white.
    #[verifier::when_used_as_spec(spec_white)]
    pub fn white() -> (c: Color)
        ensures
            c == Color::spec_white(),
    {
        Color { r: 255, g: 255, b: 255, a: 255 }
    }
}

/// A place on screen, or a displacement.
#[derive(Debug, Clone, Copy, PartialEq, Eq, Structural)]
pub struct Point {
    pub x: i32,
    pub y: i32,
}

impl Point {
    /// A point from its coordinates.
    pub fn new(x: i32, y: i32) -> (p: Point)
        ensures
            p == (Point { x, y }),
    {
        Point { x, y }
    }
}

/// A place on screen after displacements have been added up; wide enough
/// that no sum the library forms can leave it.
#[derive(Debug, Clone, Copy, PartialEq, Eq, Structural)]
pub struct Position {
    pub x: i64,
    pub y: i64,
}

/// The size of text: the edge of its em square, along each axis.
#[derive(Debug, Clone, Copy, PartialEq, Eq, Structural)]
pub struct Scale {
    pub x: u32,
    pub y: u32,
}

impl Scale {
    /// The same size along both axes.
    pub fn uniform(size: u32) -> (s: Scale)
        ensures
            s == (Scale { x: size, y: size }),
    {
        Scale { x: size, y: size }
    }
}

/// A bound on a length: a finite one, or none at all.
#[derive(Debug, Clone, Copy, PartialEq, Eq, Structural)]
pub enum Limit {
    Finite(u32),
    Infinite,
}

impl Limit {
    /// Whether a length goes beyond the bound. Nothing goes beyond an
    /// infinite bound.
    pub open spec fn exceeded_by(self, length: int) -> bool {
        match self {
            Limit::Finite(max) => length > max,
            Limit::Infinite => false,
        }
    }
}

/// The box that text is wrapped into.
#[derive(Debug, Clone, Copy, PartialEq, Eq, Structural)]
pub struct Bounds {
    pub width: Limit,
    pub height: Limit,
}

impl Bounds {
    /// A box that bounds nothing.
    pub open spec fn spec_unbounded() -> Bounds {
        Bounds { width: Limit::Infinite, height: Limit::Infinite }
    }

    /// A box that bounds nothing.
    #[verifier::when_used_as_spec(spec_unbounded)]
    pub fn unbounded() -> (b: Bounds)
        ensures
            b == Bounds::spec_unbounded(),
    {
        Bounds { width: Limit::Infinite, height: Limit::Infinite }
    }

    /// A box of a finite width and height.
    pub fn new(width: u32, height: u32) -> (b: Bounds)
        ensures
            b == (Bounds { width: Limit::Finite(width), height: Limit::Finite(height) }),
    {
        Bounds { width: Limit::Finite(width), height: Limit::Finite(height) }
    }
}

/// How the lines of a text are placed within the width of its box.
#[derive(Debug, Clone, Copy, PartialEq, Eq, Structural)]
pub enum Align {
    Left,
    Center,
    Right,
}

/// The transform that every entry of one flush of the draw queue shares.
#[derive(Debug, Clone, Copy, PartialEq, Eq, Structural)]
pub struct DrawParam {
    /// Where the flush is anchored.
    pub dest: Point,
    /// The rotation, in thousandths of a degree.
    pub rotation: i32,
    /// The zoom along each axis, in thousandths.
    pub zoom: Scale,
}

impl DrawParam {
    /// No displacement, no rotation, no zoom.
    pub open spec fn spec_identity() -> DrawParam {
        DrawParam { dest: Point { x: 0, y: 0 }, rotation: 0, zoom: Scale { x: 1000, y: 1000 } }
    }

    /// No displacement, no rotation, no zoom.
    #[verifier::when_used_as_spec(spec_identity)]
    pub fn new() -> (p: DrawParam)
        ensures
            p == DrawParam::spec_identity(),
    {
        DrawParam { dest: Point { x: 0, y: 0 }, rotation: 0, zoom: Scale { x: 1000, y: 1000 } }
    }

    /// The same transform anchored at `dest`.
    pub fn dest(self, dest: Point) -> (p: DrawParam)
        ensures
            p == (DrawParam { dest: dest, ..self }),
    {
        DrawParam { dest, rotation: self.rotation, zoom: self.zoom }
    }

    /// The same transform with another rotation.
    pub fn rotation(self, rotation: i32) -> (p: DrawParam)
        ensures
            p == (DrawParam { rotation: rotation, ..self }),
    {
        DrawParam { dest: self.dest, rotation, zoom: self.zoom }
    }

    /// The same transform with another zoom.
    pub fn zoom(self, zoom: Scale) -> (p: DrawParam)
        ensures
            p == (DrawParam { zoom: zoom, ..self }),
    {
        DrawParam { dest: self.dest, rotation: self.rotation, zoom }
    }
}

} // verus!
