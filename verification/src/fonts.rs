//! Font metrics and the registry that hands out font handles.
//!
//! A font is known to the library by its metrics alone: how far each
//! character advances the pen and how tall a line is, in font units per em.
//! The rasterizer that owns the outlines lives with the embedding program.

use vstd::prelude::*;
use crate::error::GameError;
use crate::geometry::Scale;

verus! {

/// An opaque handle to a font of a [`FontRegistry`]. Handle zero is the
/// built-in font, which every registry has.
#[derive(Debug, Clone, Copy, PartialEq, Eq, Structural)]
pub struct FontHandle {
    pub id: usize,
}

impl FontHandle {
    /// The handle of the built-in font.
    pub open spec fn spec_builtin() -> FontHandle {
        FontHandle { id: 0 }
    }

    /// The handle of the built-in font.
    #[verifier::when_used_as_spec(spec_builtin)]
    pub fn builtin() -> (h: FontHandle)
        ensures
            h == FontHandle::spec_builtin(),
    {
        FontHandle { id: 0 }
    }
}

impl Default for FontHandle {
    fn default() -> (h: FontHandle)
        ensures
            h == FontHandle::spec_builtin(),
    {
        FontHandle { id: 0 }
    }
}

/// How far one character advances the pen, in font units.
#[derive(Debug, Clone, Copy, PartialEq, Eq, Structural)]
pub struct GlyphAdvance {
    pub ch: char,
    pub advance: u32,
}

/// One character as the layout sees it: what it is, how far it advances the
/// pen and how tall its line must be, in layout units.
#[derive(Debug, Clone, Copy, PartialEq, Eq, Structural)]
pub struct Glyph {
    pub ch: char,
    pub advance: u32,
    pub height: u32,
}

/// The metrics of one font.
#[derive(Debug, PartialEq, Eq)]
pub struct FontMetrics {
    em: u32,
    line_height: u32,
    fallback_advance: u32,
    advances: Vec<GlyphAdvance>,
}

/// The mathematical value of a [`FontMetrics`].
pub ghost struct FontView {
    /// The number of font units in one em. A font with none is malformed.
    pub em: u32,
    /// The distance between two baselines, in font units.
    pub line_height: u32,
    /// The advance of a character that `advances` does not list.
    pub fallback_advance: u32,
    /// The advances of single characters; the first entry for a character
    /// counts.
    pub advances: Seq<GlyphAdvance>,
}

impl View for FontMetrics {
    type V = FontView;

    closed spec fn view(&self) -> FontView {
        FontView {
            em: self.em,
            line_height: self.line_height,
            fallback_advance: self.fallback_advance,
            advances: self.advances@,
        }
    }
}

/// The built-in font: one unit per em, every character one unit wide, every
/// line one unit tall. Text set in it advances by its horizontal scale and
/// has lines as tall as its vertical scale.
pub open spec fn builtin_font() -> FontView {
    FontView { em: 1, line_height: 1, fallback_advance: 1, advances: Seq::empty() }
}

/// The advance of `ch` among the entries from index `from` on: that of the
/// first entry for `ch`, or `fallback` if there is none.
pub open spec fn units_from(advances: Seq<GlyphAdvance>, fallback: u32, ch: char, from: int) -> u32
    decreases advances.len() - from,
{
    if from < 0 || from >= advances.len() {
        fallback
    } else if advances[from].ch == ch {
        advances[from].advance
    } else {
        units_from(advances, fallback, ch, from + 1)
    }
}

/// A length of `units` font units at text size `size`, in layout units:
/// `units * size / em`, rounded down and capped at the largest `u32`. A
/// font without an em has no lengths.
pub open spec fn scaled(units: u32, size: u32, em: u32) -> u32 {
    if em == 0 {
        0
    } else if (units * size) / (em as int) > u32::MAX {
        u32::MAX
    } else {
        ((units * size) / (em as int)) as u32
    }
}

impl FontView {
    /// The advance of `ch` in font units.
    pub open spec fn units(self, ch: char) -> u32 {
        units_from(self.advances, self.fallback_advance, ch, 0)
    }

    /// The glyph of `ch` at text size `scale`. A line break advances the pen
    /// by nothing.
    pub open spec fn glyph(self, scale: Scale, ch: char) -> Glyph {
        Glyph {
            ch: ch,
            advance: if ch == '\n' {
                0
            } else {
                scaled(self.units(ch), scale.x, self.em)
            },
            height: scaled(self.line_height, scale.y, self.em),
        }
    }
}

/// Computes [`scaled`].
pub fn scale_units(units: u32, size: u32, em: u32) -> (length: u32)
    ensures
        length == scaled(units, size, em),
{
    if em == 0 {
        return 0;
    }
    assert((units as int) * (size as int) <= 0xFFFF_FFFE_0000_0001) by (nonlinear_arith)
        requires
            0 <= units <= 0xFFFF_FFFF,
            0 <= size <= 0xFFFF_FFFF,
    ;
    let product: u64 = (units as u64) * (size as u64);
    let quotient: u64 = product / (em as u64);
    if quotient > 0xFFFF_FFFF {
        u32::MAX
    } else {
        quotient as u32
    }
}

/// The glyph of `ch` at text size `scale` in the built-in font.
pub fn builtin_glyph(scale: Scale, ch: char) -> (g: Glyph)
    ensures
        g == builtin_font().glyph(scale, ch),
{
    let advance = if ch == '\n' {
        0
    } else {
        scale_units(1, scale.x, 1)
    };
    Glyph { ch, advance, height: scale_units(1, scale.y, 1) }
}

impl FontMetrics {
    /// The metrics of a font in which every character advances by
    /// `fallback_advance` font units.
    pub fn new(em: u32, line_height: u32, fallback_advance: u32) -> (font: FontMetrics)
        ensures
            font@ == (FontView { em, line_height, fallback_advance, advances: Seq::empty() }),
    {
        FontMetrics { em, line_height, fallback_advance, advances: Vec::new() }
    }

    /// The same font with one more listed character. An entry for a
    /// character that is listed already changes nothing.
    pub fn with_advance(self, ch: char, advance: u32) -> (font: FontMetrics)
        ensures
            font@ == (FontView {
                advances: self@.advances.push(GlyphAdvance { ch, advance }),
                ..self@
            }),
    {
        let mut font = self;
        font.advances.push(GlyphAdvance { ch, advance });
        font
    }

    /// The number of font units in one em.
    pub fn em(&self) -> (em: u32)
        ensures
            em == self@.em,
    {
        self.em
    }

    /// The distance between two baselines, in font units.
    pub fn line_height(&self) -> (h: u32)
        ensures
            h == self@.line_height,
    {
        self.line_height
    }

    /// The advance of `ch` in font units.
    pub fn units(&self, ch: char) -> (units: u32)
        ensures
            units == self@.units(ch),
    {
        let mut i: usize = 0;
        while i < self.advances.len()
            invariant
                i <= self.advances.len(),
                self@.units(ch) == units_from(
                    self.advances@,
                    self.fallback_advance,
                    ch,
                    i as int,
                ),
            decreases self.advances.len() - i,
        {
            if self.advances[i].ch == ch {
                return self.advances[i].advance;
            }
            i += 1;
        }
        self.fallback_advance
    }

    /// The glyph of `ch` at text size `scale`.
    pub fn glyph(&self, scale: Scale, ch: char) -> (g: Glyph)
        ensures
            g == self@.glyph(scale, ch),
    {
        let advance = if ch == '\n' {
            0
        } else {
            scale_units(self.units(ch), scale.x, self.em)
        };
        Glyph { ch, advance, height: scale_units(self.line_height, scale.y, self.em) }
    }

    /// Whether two fonts have the same metrics.
    pub fn same_as(&self, other: &FontMetrics) -> (same: bool)
        ensures
            same == (self@ == other@),
    {
        if self.em != other.em || self.line_height != other.line_height || self.fallback_advance
            != other.fallback_advance || self.advances.len() != other.advances.len() {
            return false;
        }
        let mut i: usize = 0;
        while i < self.advances.len()
            invariant
                i <= self.advances.len(),
                self.advances.len() == other.advances.len(),
                forall|j: int| 0 <= j < i ==> self.advances@[j] == other.advances@[j],
            decreases self.advances.len() - i,
        {
            let a = self.advances[i];
            let b = other.advances[i];
            if a.ch != b.ch || a.advance != b.advance {
                return false;
            }
            i += 1;
        }
        assert(self.advances@ =~= other.advances@);
        true
    }
}

impl Clone for FontMetrics {
    fn clone(&self) -> (font: FontMetrics)
        ensures
            font@ == self@,
    {
        let mut advances: Vec<GlyphAdvance> = Vec::new();
        let mut i: usize = 0;
        while i < self.advances.len()
            invariant
                i <= self.advances.len(),
                advances@ == self.advances@.take(i as int),
            decreases self.advances.len() - i,
        {
            advances.push(self.advances[i]);
            i += 1;
        }
        assert(self.advances@.take(self.advances.len() as int) == self.advances@);
        FontMetrics {
            em: self.em,
            line_height: self.line_height,
            fallback_advance: self.fallback_advance,
            advances,
        }
    }
}

/// The fonts of a context. Handle zero is the built-in font; every
/// registered font gets the next handle and keeps it.
#[derive(Debug, PartialEq, Eq)]
pub struct FontRegistry {
    fonts: Vec<FontMetrics>,
}

impl View for FontRegistry {
    type V = Seq<FontView>;

    closed spec fn view(&self) -> Seq<FontView> {
        Seq::new(self.fonts@.len(), |i: int| self.fonts@[i]@)
    }
}

/// The metrics that a handle stands for: those of the font registered under
/// it, or the built-in font for handle zero and for a handle that the
/// registry never gave out.
pub open spec fn resolve(fonts: Seq<FontView>, handle: FontHandle) -> FontView {
    if 1 <= handle.id <= fonts.len() {
        fonts[handle.id - 1]
    } else {
        builtin_font()
    }
}

/// What registering a font amounts to: a font without an em is turned down
/// with a `ResourceError`, a full registry likewise, and any other font is
/// appended and gets the next handle.
pub open spec fn spec_register(
    before: Seq<FontView>,
    font: FontView,
    after: Seq<FontView>,
    outcome: Result<FontHandle, GameError>,
) -> bool {
    if font.em == 0 || before.len() >= usize::MAX {
        after == before && outcome matches Err(GameError::ResourceError(_))
    } else {
        after == before.push(font) && outcome == Ok::<FontHandle, GameError>(
            FontHandle { id: (before.len() + 1) as usize },
        )
    }
}

impl FontRegistry {
    /// A registry with the built-in font alone.
    pub fn new() -> (registry: FontRegistry)
        ensures
            registry@ == Seq::<FontView>::empty(),
    {
        let registry = FontRegistry { fonts: Vec::new() };
        assert(registry@ =~= Seq::<FontView>::empty());
        registry
    }

    /// The number of registered fonts, the built-in one not counted.
    pub fn len(&self) -> (n: usize)
        ensures
            n == self@.len(),
    {
        self.fonts.len()
    }

    /// Registers a font and hands out its handle.
    pub fn register(&mut self, font: FontMetrics) -> (outcome: Result<FontHandle, GameError>)
        ensures
            spec_register(old(self)@, font@, final(self)@, outcome),
    {
        if font.em == 0 {
            return Err(GameError::ResourceError("font has no units per em".to_owned()));
        }
        if self.fonts.len() >= usize::MAX {
            return Err(GameError::ResourceError("font registry is full".to_owned()));
        }
        let ghost before = self@;
        self.fonts.push(font);
        assert(self@ =~= before.push(font@));
        Ok(FontHandle { id: self.fonts.len() })
    }

    /// The glyph of `ch` at text size `scale` in the font that `handle`
    /// stands for.
    pub fn glyph(&self, handle: FontHandle, scale: Scale, ch: char) -> (g: Glyph)
        ensures
            g == resolve(self@, handle).glyph(scale, ch),
    {
        if 1 <= handle.id && handle.id <= self.fonts.len() {
            self.fonts[handle.id - 1].glyph(scale, ch)
        } else {
            builtin_glyph(scale, ch)
        }
    }

    /// Whether two registries hold the same fonts under the same handles.
    pub fn same_as(&self, other: &FontRegistry) -> (same: bool)
        ensures
            same == (self@ == other@),
    {
        if self.fonts.len() != other.fonts.len() {
            assert(self@.len() != other@.len());
            return false;
        }
        let mut i: usize = 0;
        while i < self.fonts.len()
            invariant
                i <= self.fonts.len(),
                self.fonts.len() == other.fonts.len(),
                forall|j: int| 0 <= j < i ==> self@[j] == other@[j],
            decreases self.fonts.len() - i,
        {
            if !self.fonts[i].same_as(&other.fonts[i]) {
                assert(self@[i as int] != other@[i as int]);
                return false;
            }
            i += 1;
        }
        assert(self@ =~= other@);
        true
    }
}

impl Clone for FontRegistry {
    fn clone(&self) -> (registry: FontRegistry)
        ensures
            registry@ == self@,
    {
        let mut fonts: Vec<FontMetrics> = Vec::new();
        let mut i: usize = 0;
        while i < self.fonts.len()
            invariant
                i <= self.fonts.len(),
                fonts@.len() == i,
                forall|j: int| 0 <= j < i ==> fonts@[j]@ == self.fonts@[j]@,
            decreases self.fonts.len() - i,
        {
            fonts.push(self.fonts[i].clone());
            i += 1;
        }
        let registry = FontRegistry { fonts };
        assert(registry@ =~= self@);
        registry
    }
}

} // verus!
