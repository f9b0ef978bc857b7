//! Styled text: fragments, and batches of fragments that are laid out as
//! one block.
//!
//! A fragment may leave its font, its scale and its colour open. What is
//! left open is filled in from the batch when the text is measured or
//! drawn, not when the fragment is added: a later change of the batch's
//! defaults reaches every fragment that has none of its own.

use vstd::prelude::*;
use crate::context::Context;
use crate::draw::Style;
use crate::fonts::{resolve, FontHandle, FontRegistry, FontView, Glyph};
use crate::geometry::{Align, Bounds, Color, Scale};
use crate::layout::{
    ends_paragraph, is_line_break, layout_glyphs, lemma_lines_fit, lemma_unbounded_keeps_all,
    lemma_unbounded_wraps_nothing, lines_from, span_width, spec_layout, Layout, LayoutView,
};

verus! {

/// The smallest styled unit of text.
#[derive(Debug, Clone, PartialEq, Eq)]
pub struct TextFragment {
    pub text: String,
    /// The colour, or `None` to draw in white.
    pub color: Option<Color>,
    /// The font, or `None` to take the batch's.
    pub font: Option<FontHandle>,
    /// The scale, or `None` to take the batch's.
    pub scale: Option<Scale>,
}

/// The mathematical value of a [`TextFragment`].
pub ghost struct FragmentView {
    pub text: Seq<char>,
    pub color: Option<Color>,
    pub font: Option<FontHandle>,
    pub scale: Option<Scale>,
}

impl View for TextFragment {
    type V = FragmentView;

    open spec fn view(&self) -> FragmentView {
        FragmentView { text: self.text@, color: self.color, font: self.font, scale: self.scale }
    }
}

impl TextFragment {
    /// A fragment that leaves every style open.
    pub fn new(text: &str) -> (fragment: TextFragment)
        ensures
            fragment@ == (FragmentView { text: text@, color: None, font: None, scale: None }),
    {
        TextFragment { text: text.to_owned(), color: None, font: None, scale: None }
    }

    /// The same fragment in another colour.
    pub fn with_color(self, color: Color) -> (fragment: TextFragment)
        ensures
            fragment@ == (FragmentView { color: Some(color), ..self@ }),
    {
        TextFragment { text: self.text, color: Some(color), font: self.font, scale: self.scale }
    }

    /// The same fragment in another font.
    pub fn with_font(self, font: FontHandle) -> (fragment: TextFragment)
        ensures
            fragment@ == (FragmentView { font: Some(font), ..self@ }),
    {
        TextFragment { text: self.text, color: self.color, font: Some(font), scale: self.scale }
    }

    /// The same fragment at another scale.
    pub fn with_scale(self, scale: Scale) -> (fragment: TextFragment)
        ensures
            fragment@ == (FragmentView { scale: Some(scale), ..self@ }),
    {
        TextFragment { text: self.text, color: self.color, font: self.font, scale: Some(scale) }
    }
}

impl Default for TextFragment {
    fn default() -> (fragment: TextFragment)
        ensures
            fragment@ == (FragmentView {
                text: Seq::empty(),
                color: None,
                font: None,
                scale: None,
            }),
    {
        TextFragment { text: String::new(), color: None, font: None, scale: None }
    }
}

/// The values of a list of fragments, in order.
pub open spec fn fragment_views(fragments: Seq<TextFragment>) -> Seq<FragmentView> {
    Seq::new(fragments.len(), |i: int| fragments[i]@)
}

/// A layout together with the fonts it was computed with.
#[derive(Debug, Clone, PartialEq, Eq)]
struct LayoutCache {
    fonts: FontRegistry,
    layout: Layout,
}

/// An ordered collection of fragments with shared defaults, laid out as
/// one block of text. The order of the fragments is the order in which
/// they are drawn.
#[derive(Debug, Clone, PartialEq, Eq)]
pub struct TextBatch {
    fragments: Vec<TextFragment>,
    default_font: FontHandle,
    default_scale: Scale,
    bounds: Option<Bounds>,
    alignment: Align,
    cache: Option<LayoutCache>,
    passes: u64,
}

/// The mathematical value of a [`TextBatch`]: everything that decides how
/// it is laid out and drawn.
pub ghost struct BatchView {
    pub fragments: Seq<FragmentView>,
    pub default_font: FontHandle,
    pub default_scale: Scale,
    /// The box the text is wrapped into, if any.
    pub bounds: Option<Bounds>,
    pub alignment: Align,
}

impl View for TextBatch {
    type V = BatchView;

    closed spec fn view(&self) -> BatchView {
        BatchView {
            fragments: fragment_views(self.fragments@),
            default_font: self.default_font,
            default_scale: self.default_scale,
            bounds: self.bounds,
            alignment: self.alignment,
        }
    }
}

/// The scale of text that asks for none.
pub open spec fn default_scale() -> Scale {
    Scale { x: 16, y: 16 }
}

/// A batch without fragments, with the defaults of a new batch.
pub open spec fn empty_batch() -> BatchView {
    BatchView {
        fragments: Seq::empty(),
        default_font: FontHandle::spec_builtin(),
        default_scale: default_scale(),
        bounds: None,
        alignment: Align::Left,
    }
}

impl FragmentView {
    /// The font a fragment is set in within `batch`.
    pub open spec fn font_in(self, batch: BatchView) -> FontHandle {
        match self.font {
            Some(font) => font,
            None => batch.default_font,
        }
    }

    /// The scale a fragment is set at within `batch`.
    pub open spec fn scale_in(self, batch: BatchView) -> Scale {
        match self.scale {
            Some(scale) => scale,
            None => batch.default_scale,
        }
    }

    /// The colour a fragment is drawn in.
    pub open spec fn color_or_white(self) -> Color {
        match self.color {
            Some(color) => color,
            None => Color::spec_white(),
        }
    }

    /// The style of a fragment within `batch`.
    pub open spec fn style_in(self, batch: BatchView) -> Style {
        Style {
            font: self.font_in(batch),
            scale: self.scale_in(batch),
            color: self.color_or_white(),
        }
    }

    /// The glyphs of a fragment within `batch`, one for each character.
    pub open spec fn glyphs_in(self, batch: BatchView, fonts: Seq<FontView>) -> Seq<Glyph> {
        Seq::new(
            self.text.len(),
            |i: int| resolve(fonts, self.font_in(batch)).glyph(self.scale_in(batch), self.text[i]),
        )
    }

    /// The style of each character of a fragment within `batch`.
    pub open spec fn styles_in(self, batch: BatchView) -> Seq<Style> {
        Seq::new(self.text.len(), |i: int| self.style_in(batch))
    }
}

impl BatchView {
    /// The glyphs of the first `n` fragments, in order.
    pub open spec fn glyphs_upto(self, fonts: Seq<FontView>, n: int) -> Seq<Glyph>
        decreases n,
    {
        if n <= 0 {
            Seq::empty()
        } else {
            self.glyphs_upto(fonts, n - 1) + self.fragments[n - 1].glyphs_in(self, fonts)
        }
    }

    /// The glyphs of the batch: those of its fragments, in order.
    pub open spec fn glyphs(self, fonts: Seq<FontView>) -> Seq<Glyph> {
        self.glyphs_upto(fonts, self.fragments.len() as int)
    }

    /// The style of each glyph of the first `n` fragments.
    pub open spec fn styles_upto(self, n: int) -> Seq<Style>
        decreases n,
    {
        if n <= 0 {
            Seq::empty()
        } else {
            self.styles_upto(n - 1) + self.fragments[n - 1].styles_in(self)
        }
    }

    /// The style of each glyph of the batch.
    pub open spec fn styles(self) -> Seq<Style> {
        self.styles_upto(self.fragments.len() as int)
    }

    /// The box the text is wrapped into. A batch without bounds has a box
    /// that bounds nothing.
    pub open spec fn effective_bounds(self) -> Bounds {
        match self.bounds {
            Some(bounds) => bounds,
            None => Bounds::spec_unbounded(),
        }
    }

    /// The layout of the batch with the given fonts.
    pub open spec fn layout(self, fonts: Seq<FontView>) -> LayoutView {
        spec_layout(self.glyphs(fonts), self.effective_bounds(), self.alignment)
    }

    /// The width of the box around the laid-out text.
    pub open spec fn width(self, fonts: Seq<FontView>) -> u32 {
        self.layout(fonts).width
    }

    /// The height of the box around the laid-out text.
    pub open spec fn height(self, fonts: Seq<FontView>) -> u32 {
        self.layout(fonts).height
    }
}

/// The number of layout passes after a measurement: one more than before
/// (as far as a `u64` can count) unless a layout for the fonts was at hand.
pub open spec fn passes_after(before: u64, cached: bool) -> u64 {
    if cached || before == u64::MAX {
        before
    } else {
        (before + 1) as u64
    }
}

/// A batch has as many styles as glyphs: one for each character.
pub proof fn lemma_one_style_per_glyph(batch: BatchView, fonts: Seq<FontView>, n: int)
    ensures
        batch.styles_upto(n).len() == batch.glyphs_upto(fonts, n).len(),
    decreases n,
{
    if n > 0 {
        lemma_one_style_per_glyph(batch, fonts, n - 1);
    }
}

/// The glyphs of a batch depend on its fragments and on its default font
/// and scale, and on nothing else.
pub proof fn lemma_glyphs_ignore_box(a: BatchView, b: BatchView, fonts: Seq<FontView>, n: int)
    requires
        a.fragments == b.fragments,
        a.default_font == b.default_font,
        a.default_scale == b.default_scale,
    ensures
        a.glyphs_upto(fonts, n) == b.glyphs_upto(fonts, n),
    decreases n,
{
    if n > 0 {
        lemma_glyphs_ignore_box(a, b, fonts, n - 1);
        assert(a.fragments[n - 1].glyphs_in(a, fonts) =~= b.fragments[n - 1].glyphs_in(b, fonts));
    }
}

/// A line break of a batch advances the pen by nothing.
pub proof fn lemma_line_breaks_advance_nothing(batch: BatchView, fonts: Seq<FontView>, n: int)
    ensures
        forall|j: int|
            0 <= j < batch.glyphs_upto(fonts, n).len() && is_line_break(
                #[trigger] batch.glyphs_upto(fonts, n)[j],
            ) ==> batch.glyphs_upto(fonts, n)[j].advance == 0,
    decreases n,
{
    if n > 0 {
        lemma_line_breaks_advance_nothing(batch, fonts, n - 1);
        let before = batch.glyphs_upto(fonts, n - 1);
        let added = batch.fragments[n - 1].glyphs_in(batch, fonts);
        assert forall|j: int|
            0 <= j < (before + added).len() && is_line_break(
                #[trigger] (before + added)[j],
            ) implies (before + added)[j].advance == 0 by {
            if j >= before.len() {
                assert((before + added)[j] == added[j - before.len()]);
            } else {
                assert((before + added)[j] == before[j]);
            }
        }
    }
}

/// Bounds that bound nothing are as good as no bounds: the layout is the
/// same, line for line. Nothing is wrapped in it: every line ends with a
/// line break or with the text and holds no other line break. And nothing
/// is left out: the last line ends with the text.
pub proof fn lemma_infinite_bounds_are_no_bounds(batch: BatchView, fonts: Seq<FontView>)
    requires
        batch.bounds == Some(Bounds::spec_unbounded()),
    ensures
        batch.layout(fonts) == (BatchView { bounds: None, ..batch }).layout(fonts),
        forall|k: int|
            0 <= k < batch.layout(fonts).lines.len() ==> ends_paragraph(
                batch.glyphs(fonts),
                (#[trigger] batch.layout(fonts).lines[k]).start,
                batch.layout(fonts).lines[k].end,
            ),
        batch.glyphs(fonts).len() > 0 ==> batch.layout(fonts).lines.len() > 0
            && batch.layout(fonts).lines.last().end == batch.glyphs(fonts).len(),
{
    let bare = BatchView { bounds: None, ..batch };
    let glyphs = batch.glyphs(fonts);
    let bounds = Bounds::spec_unbounded();
    lemma_glyphs_ignore_box(batch, bare, fonts, batch.fragments.len() as int);
    lemma_unbounded_wraps_nothing(glyphs, bounds, 0, 0);
    let raw = lines_from(glyphs, bounds, 0, 0);
    let lines = batch.layout(fonts).lines;
    assert forall|k: int| 0 <= k < lines.len() implies ends_paragraph(
        glyphs,
        (#[trigger] lines[k]).start,
        lines[k].end,
    ) by {
        assert(lines[k].start == raw[k].start && lines[k].end == raw[k].end);
    }
    if glyphs.len() > 0 {
        lemma_unbounded_keeps_all(glyphs, bounds, 0, 0);
        assert(lines.last().end == raw.last().end);
    }
}

/// In a box of a finite width every line of a batch stays within that
/// width, unless its first glyph alone is wider: then the line is as wide
/// as that glyph.
pub proof fn lemma_lines_stay_in_box(batch: BatchView, fonts: Seq<FontView>, max: u32)
    requires
        batch.effective_bounds().width == crate::geometry::Limit::Finite(max),
    ensures
        forall|k: int|
            0 <= k < batch.layout(fonts).lines.len() ==> {
                let line = #[trigger] batch.layout(fonts).lines[k];
                span_width(batch.glyphs(fonts), line.start, line.end) <= max || span_width(
                    batch.glyphs(fonts),
                    line.start,
                    line.end,
                ) == batch.glyphs(fonts)[line.start].advance
            },
{
    let glyphs = batch.glyphs(fonts);
    let bounds = batch.effective_bounds();
    lemma_line_breaks_advance_nothing(batch, fonts, batch.fragments.len() as int);
    lemma_lines_fit(glyphs, bounds, max, 0, 0);
    let raw = lines_from(glyphs, bounds, 0, 0);
    let lines = batch.layout(fonts).lines;
    assert forall|k: int| 0 <= k < lines.len() implies {
        let line = #[trigger] lines[k];
        span_width(glyphs, line.start, line.end) <= max || span_width(
            glyphs,
            line.start,
            line.end,
        ) == glyphs[line.start].advance
    } by {
        assert(lines[k].start == raw[k].start && lines[k].end == raw[k].end);
    }
}

impl TextBatch {
    /// Whether the cached layout, if there is one, is the layout of the
    /// batch as it is now. Every constructor and every method sees to
    /// that.
    pub closed spec fn wf(&self) -> bool {
        self.cache matches Some(cache) ==> cache.layout@ == self@.layout(cache.fonts@)
    }

    /// The fonts that the layout at hand was computed with, if there is
    /// one.
    pub closed spec fn cached_fonts(&self) -> Option<Seq<FontView>> {
        match self.cache {
            Some(cache) => Some(cache.fonts@),
            None => None,
        }
    }

    /// Whether a layout for these fonts is at hand, so that measuring
    /// with them computes nothing.
    pub open spec fn cached_for(&self, fonts: Seq<FontView>) -> bool {
        self.cached_fonts() == Some(fonts)
    }

    /// How many times the batch has been laid out so far.
    pub closed spec fn spec_layout_passes(&self) -> u64 {
        self.passes
    }

    /// How many times the batch has been laid out so far.
    #[verifier::when_used_as_spec(spec_layout_passes)]
    pub fn layout_passes(&self) -> (n: u64)
        ensures
            n == self.spec_layout_passes(),
    {
        self.passes
    }

    /// A batch without fragments: built-in font, scale 16, no bounds,
    /// aligned left.
    pub fn new_empty() -> (batch: TextBatch)
        ensures
            batch@ == empty_batch(),
            batch.wf(),
            batch.cached_fonts() is None,
            batch.layout_passes() == 0,
    {
        let batch = TextBatch {
            fragments: Vec::new(),
            default_font: FontHandle::builtin(),
            default_scale: Scale { x: 16, y: 16 },
            bounds: None,
            alignment: Align::Left,
            cache: None,
            passes: 0,
        };
        assert(batch@.fragments =~= Seq::empty());
        batch
    }

    /// A batch of one fragment, with the defaults of a new batch.
    pub fn new(fragment: TextFragment) -> (batch: TextBatch)
        ensures
            batch@ == (BatchView { fragments: seq![fragment@], ..empty_batch() }),
            batch.wf(),
            batch.cached_fonts() is None,
            batch.layout_passes() == 0,
    {
        let mut fragments: Vec<TextFragment> = Vec::new();
        fragments.push(fragment);
        let batch = TextBatch {
            fragments,
            default_font: FontHandle::builtin(),
            default_scale: Scale { x: 16, y: 16 },
            bounds: None,
            alignment: Align::Left,
            cache: None,
            passes: 0,
        };
        assert(batch@.fragments =~= seq![fragment@]);
        batch
    }

    /// Appends a fragment. The cached layout is dropped.
    pub fn add_fragment(&mut self, fragment: TextFragment) -> (batch: &mut TextBatch)
        ensures
            batch@ == (BatchView {
                fragments: old(self)@.fragments.push(fragment@),
                ..old(self)@
            }),
            batch.wf(),
            batch.cached_fonts() is None,
            batch.layout_passes() == old(self).layout_passes(),
            *final(self) == *final(batch),
    {
        self.cache = None;
        self.fragments.push(fragment);
        assert(self@.fragments =~= old(self)@.fragments.push(fragment@));
        self
    }

    /// Appends some fragments, in their order.
    pub fn add_fragments(&mut self, fragments: Vec<TextFragment>) -> (batch: &mut TextBatch)
        ensures
            batch@ == (BatchView {
                fragments: old(self)@.fragments + fragment_views(fragments@),
                ..old(self)@
            }),
            batch.wf(),
            batch.cached_fonts() is None,
            batch.layout_passes() == old(self).layout_passes(),
            *final(self) == *final(batch),
    {
        self.cache = None;
        let ghost added = fragment_views(fragments@);
        assert(old(self)@.fragments + added.take(0) =~= old(self)@.fragments);
        for fragment in it: fragments
            invariant
                it.seq() == fragments@,
                added == fragment_views(fragments@),
                self@ == (BatchView {
                    fragments: old(self)@.fragments + added.take(it.index() as int),
                    ..old(self)@
                }),
                self.wf(),
                self.cached_fonts() is None,
                self.layout_passes() == old(self).layout_passes(),
        {
            proof {
                let i = it.index() as int;
                assert(added[i] == fragment@);
                assert(old(self)@.fragments + added.take(i + 1) =~= (old(self)@.fragments
                    + added.take(i)).push(fragment@));
            }
            self.add_fragment(fragment);
        }
        assert(added.take(added.len() as int) =~= added);
        self
    }

    /// Appends a plain string as a fragment that leaves every style open.
    pub fn add_text(&mut self, text: &str) -> (batch: &mut TextBatch)
        ensures
            batch@ == (BatchView {
                fragments: old(self)@.fragments.push(
                    FragmentView { text: text@, color: None, font: None, scale: None },
                ),
                ..old(self)@
            }),
            batch.wf(),
            batch.cached_fonts() is None,
            batch.layout_passes() == old(self).layout_passes(),
            *final(self) == *final(batch),
    {
        self.add_fragment(TextFragment::new(text))
    }

    /// The fragments, in the order they were added.
    pub fn fragments(&self) -> (fragments: &Vec<TextFragment>)
        ensures
            fragment_views(fragments@) == self@.fragments,
    {
        &self.fragments
    }

    /// The fragments, to change them in place. The cached layout is dropped
    /// before the fragments are handed out, so whatever is done to them,
    /// the next measurement lays the text out anew.
    pub fn fragments_mut(&mut self) -> (fragments: &mut Vec<TextFragment>)
        ensures
            fragment_views(fragments@) == old(self)@.fragments,
            final(self)@ == (BatchView {
                fragments: fragment_views(final(fragments)@),
                ..old(self)@
            }),
            final(self).wf(),
            final(self).cached_fonts() is None,
            final(self).layout_passes() == old(self).layout_passes(),
    {
        self.cache = None;
        &mut self.fragments
    }

    /// Sets the box the text is wrapped into and the alignment within it.
    pub fn set_bounds(&mut self, max_size: Bounds, alignment: Align) -> (batch: &mut TextBatch)
        ensures
            batch@ == (BatchView {
                bounds: Some(max_size),
                alignment: alignment,
                ..old(self)@
            }),
            batch.wf(),
            batch.cached_fonts() is None,
            batch.layout_passes() == old(self).layout_passes(),
            *final(self) == *final(batch),
    {
        self.cache = None;
        self.bounds = Some(max_size);
        self.alignment = alignment;
        self
    }

    /// Sets the font and the scale of every fragment that has none of its
    /// own.
    pub fn set_font(&mut self, font: FontHandle, scale: Scale) -> (batch: &mut TextBatch)
        ensures
            batch@ == (BatchView { default_font: font, default_scale: scale, ..old(self)@ }),
            batch.wf(),
            batch.cached_fonts() is None,
            batch.layout_passes() == old(self).layout_passes(),
            *final(self) == *final(batch),
    {
        self.cache = None;
        self.default_font = font;
        self.default_scale = scale;
        self
    }

    /// Sets the scale of every fragment that has none of its own.
    pub fn set_scale(&mut self, scale: Scale) -> (batch: &mut TextBatch)
        ensures
            batch@ == (BatchView { default_scale: scale, ..old(self)@ }),
            batch.wf(),
            batch.cached_fonts() is None,
            batch.layout_passes() == old(self).layout_passes(),
            *final(self) == *final(batch),
    {
        self.cache = None;
        self.default_scale = scale;
        self
    }

    /// The box the text is wrapped into, if any.
    pub fn bounds(&self) -> (bounds: Option<Bounds>)
        ensures
            bounds == self@.bounds,
    {
        self.bounds
    }

    /// The box the text is wrapped into; one that bounds nothing if the
    /// batch has none.
    pub fn effective_bounds(&self) -> (bounds: Bounds)
        ensures
            bounds == self@.effective_bounds(),
    {
        match self.bounds {
            Some(bounds) => bounds,
            None => Bounds::unbounded(),
        }
    }

    /// The alignment of the lines.
    pub fn alignment(&self) -> (alignment: Align)
        ensures
            alignment == self@.alignment,
    {
        self.alignment
    }

    /// The font of every fragment that has none of its own.
    pub fn default_font(&self) -> (font: FontHandle)
        ensures
            font == self@.default_font,
    {
        self.default_font
    }

    /// The scale of every fragment that has none of its own.
    pub fn default_scale(&self) -> (scale: Scale)
        ensures
            scale == self@.default_scale,
    {
        self.default_scale
    }

    /// The glyphs of the batch with the given fonts, and the style of each.
    pub fn resolve(&self, fonts: &FontRegistry) -> (resolved: (Vec<Glyph>, Vec<Style>))
        ensures
            resolved.0@ == self@.glyphs(fonts@),
            resolved.1@ == self@.styles(),
    {
        let mut glyphs: Vec<Glyph> = Vec::new();
        let mut styles: Vec<Style> = Vec::new();
        let mut n: usize = 0;
        while n < self.fragments.len()
            invariant
                n <= self.fragments.len(),
                glyphs@ == self@.glyphs_upto(fonts@, n as int),
                styles@ == self@.styles_upto(n as int),
            decreases self.fragments.len() - n,
        {
            let fragment = &self.fragments[n];
            let font = match fragment.font {
                Some(font) => font,
                None => self.default_font,
            };
            let scale = match fragment.scale {
                Some(scale) => scale,
                None => self.default_scale,
            };
            let color = match fragment.color {
                Some(color) => color,
                None => Color::white(),
            };
            let style = Style { font, scale, color };
            let ghost view = self@.fragments[n as int];
            let ghost all = view.glyphs_in(self@, fonts@);
            let ghost all_styles = view.styles_in(self@);
            assert(view == fragment@);
            for ch in it: fragment.text.as_str().chars()
                invariant
                    it.seq() == view.text,
                    view == self@.fragments[n as int],
                    all == view.glyphs_in(self@, fonts@),
                    all_styles == view.styles_in(self@),
                    font == view.font_in(self@),
                    scale == view.scale_in(self@),
                    style == view.style_in(self@),
                    glyphs@ == self@.glyphs_upto(fonts@, n as int) + all.take(it.index() as int),
                    styles@ == self@.styles_upto(n as int) + all_styles.take(it.index() as int),
            {
                proof {
                    let i = it.index() as int;
                    assert(all.take(i + 1) =~= all.take(i).push(all[i]));
                    assert(all_styles.take(i + 1) =~= all_styles.take(i).push(all_styles[i]));
                    assert(self@.glyphs_upto(fonts@, n as int) + all.take(i).push(all[i])
                        =~= (self@.glyphs_upto(fonts@, n as int) + all.take(i)).push(all[i]));
                    assert(self@.styles_upto(n as int) + all_styles.take(i).push(all_styles[i])
                        =~= (self@.styles_upto(n as int) + all_styles.take(i)).push(
                        all_styles[i],
                    ));
                }
                glyphs.push(fonts.glyph(font, scale, ch));
                styles.push(style);
            }
            proof {
                assert(all.take(all.len() as int) =~= all);
                assert(all_styles.take(all_styles.len() as int) =~= all_styles);
            }
            n += 1;
        }
        (glyphs, styles)
    }

    /// Makes sure that a layout for these fonts is at hand: keeps the
    /// cached one if it was computed with the same fonts, lays the text
    /// out otherwise.
    pub fn refresh(&mut self, fonts: &FontRegistry)
        requires
            old(self).wf(),
        ensures
            final(self)@ == old(self)@,
            final(self).wf(),
            final(self).cached_for(fonts@),
            final(self).layout_passes() == passes_after(
                old(self).layout_passes(),
                old(self).cached_for(fonts@),
            ),
    {
        let valid = match &self.cache {
            Some(cache) => cache.fonts.same_as(fonts),
            None => false,
        };
        if !valid {
            let resolved = self.resolve(fonts);
            let layout = layout_glyphs(&resolved.0, self.effective_bounds(), self.alignment);
            self.cache = Some(LayoutCache { fonts: fonts.clone(), layout });
            self.passes = self.passes.saturating_add(1);
        }
    }

    /// The layout for these fonts, if it is at hand.
    pub fn cached_layout(&self, fonts: &FontRegistry) -> (layout: Option<&Layout>)
        requires
            self.wf(),
        ensures
            layout is Some <==> self.cached_for(fonts@),
            layout matches Some(l) ==> l@ == self@.layout(fonts@),
    {
        match &self.cache {
            Some(cache) => {
                if cache.fonts.same_as(fonts) {
                    Some(&cache.layout)
                } else {
                    None
                }
            },
            None => None,
        }
    }

    /// The width and the height of the box around the laid-out text.
    /// Lays the text out only if no layout for the fonts of `ctx` is at
    /// hand.
    pub fn dimensions(&mut self, ctx: &Context) -> (size: (u32, u32))
        requires
            old(self).wf(),
        ensures
            size.0 == old(self)@.width(ctx@.fonts),
            size.1 == old(self)@.height(ctx@.fonts),
            final(self)@ == old(self)@,
            final(self).wf(),
            final(self).cached_for(ctx@.fonts),
            final(self).layout_passes() == passes_after(
                old(self).layout_passes(),
                old(self).cached_for(ctx@.fonts),
            ),
    {
        self.refresh(ctx.fonts());
        match &self.cache {
            Some(cache) => (cache.layout.width, cache.layout.height),
            None => (0, 0),
        }
    }

    /// The width of the box around the laid-out text, wrapping included.
    /// This lays the text out unless a layout for the fonts of `ctx` is at
    /// hand, which makes it the most expensive operation of a batch; a
    /// second call without a change in between computes nothing.
    pub fn width(&mut self, ctx: &Context) -> (w: u32)
        requires
            old(self).wf(),
        ensures
            w == old(self)@.width(ctx@.fonts),
            final(self)@ == old(self)@,
            final(self).wf(),
            final(self).cached_for(ctx@.fonts),
            final(self).layout_passes() == passes_after(
                old(self).layout_passes(),
                old(self).cached_for(ctx@.fonts),
            ),
    {
        self.dimensions(ctx).0
    }

    /// The height of the box around the laid-out text; see [`Self::width`].
    pub fn height(&mut self, ctx: &Context) -> (h: u32)
        requires
            old(self).wf(),
        ensures
            h == old(self)@.height(ctx@.fonts),
            final(self)@ == old(self)@,
            final(self).wf(),
            final(self).cached_for(ctx@.fonts),
            final(self).layout_passes() == passes_after(
                old(self).layout_passes(),
                old(self).cached_for(ctx@.fonts),
            ),
    {
        self.dimensions(ctx).1
    }
}

} // verus!
