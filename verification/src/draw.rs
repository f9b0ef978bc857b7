//! Draw calls: what the library asks the graphics backend to draw.

use vstd::prelude::*;
use crate::fonts::FontHandle;
use crate::geometry::{Color, Scale};

verus! {

/// Everything that decides how a glyph looks.
#[derive(Debug, Clone, Copy, PartialEq, Eq, Structural)]
pub struct Style {
    pub font: FontHandle,
    pub scale: Scale,
    pub color: Color,
}

/// One glyph at its place on screen.
#[derive(Debug, Clone, Copy, PartialEq, Eq, Structural)]
pub struct PlacedGlyph {
    pub ch: char,
    pub x: i64,
    pub y: i64,
}

/// One submission to the graphics backend: a run of glyphs that share one
/// style, under one transform.
#[derive(Debug, PartialEq, Eq)]
pub struct DrawCall {
    pub style: Style,
    /// The rotation of the flush, in thousandths of a degree.
    pub rotation: i32,
    /// The zoom of the flush along each axis, in thousandths.
    pub zoom: Scale,
    pub glyphs: Vec<PlacedGlyph>,
}

/// The mathematical value of a [`DrawCall`].
pub ghost struct DrawCallView {
    pub style: Style,
    pub rotation: i32,
    pub zoom: Scale,
    pub glyphs: Seq<PlacedGlyph>,
}

impl View for DrawCall {
    type V = DrawCallView;

    open spec fn view(&self) -> DrawCallView {
        DrawCallView {
            style: self.style,
            rotation: self.rotation,
            zoom: self.zoom,
            glyphs: self.glyphs@,
        }
    }
}

/// The values of a list of draw calls, in order.
pub open spec fn call_views(calls: Seq<DrawCall>) -> Seq<DrawCallView> {
    Seq::new(calls.len(), |i: int| calls[i]@)
}

} // verus!
