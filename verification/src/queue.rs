//! The draw queue: text that is queued now and drawn later, all of it with
//! one shared transform.
//!
//! The queue borrows the batches it holds. A batch cannot change or go away
//! while it is queued; flushing or clearing the queue lets go of it.

use vstd::prelude::*;
use crate::context::{Context, ContextView};
use crate::draw::{call_views, DrawCall, DrawCallView, PlacedGlyph, Style};
use crate::fonts::{FontRegistry, FontView, Glyph};
use crate::geometry::{Color, DrawParam, Point, Position};
use crate::layout::{
    clamp32, layout_glyphs, lemma_layout_partition, line_views, span_width, Layout, LineView,
};
use crate::text::{lemma_one_style_per_glyph, BatchView, TextBatch};

verus! {

/// A glyph at its place on screen, with its style.
#[derive(Debug, Clone, Copy, PartialEq, Eq, Structural)]
pub struct StyledGlyph {
    pub style: Style,
    pub glyph: PlacedGlyph,
}

/// Where an entry is drawn: the anchor of the flush moved by the offset of
/// the entry. The rotation and the zoom of the flush do not bend the
/// offset.
pub open spec fn anchor(params: DrawParam, offset: Point) -> Position {
    Position { x: (params.dest.x + offset.x) as i64, y: (params.dest.y + offset.y) as i64 }
}

/// A style in the colour that an entry overrides it with, if it does.
pub open spec fn restyled(style: Style, color: Option<Color>) -> Style {
    match color {
        Some(color) => Style { color: color, ..style },
        None => style,
    }
}

/// The number of glyphs on a line.
pub open spec fn line_len(line: LineView) -> nat {
    if line.end > line.start {
        (line.end - line.start) as nat
    } else {
        0
    }
}

/// The glyphs of one line at their places: each as far right of the start
/// of the line as the glyphs before it advance the pen.
pub open spec fn line_items(
    glyphs: Seq<Glyph>,
    styles: Seq<Style>,
    line: LineView,
    at: Position,
    color: Option<Color>,
) -> Seq<StyledGlyph> {
    Seq::new(
        line_len(line),
        |i: int|
            StyledGlyph {
                style: restyled(styles[line.start + i], color),
                glyph: PlacedGlyph {
                    ch: glyphs[line.start + i].ch,
                    x: (at.x + line.x + clamp32(
                        span_width(glyphs, line.start, line.start + i),
                    )) as i64,
                    y: (at.y + line.y) as i64,
                },
            },
    )
}

/// The glyphs of the first `n` lines at their places, in reading order.
pub open spec fn items_upto(
    glyphs: Seq<Glyph>,
    styles: Seq<Style>,
    lines: Seq<LineView>,
    at: Position,
    color: Option<Color>,
    n: int,
) -> Seq<StyledGlyph>
    decreases n,
{
    if n <= 0 {
        Seq::empty()
    } else {
        items_upto(glyphs, styles, lines, at, color, n - 1) + line_items(
            glyphs,
            styles,
            lines[n - 1],
            at,
            color,
        )
    }
}

/// The draw calls for some placed glyphs: one for each longest run of
/// neighbours that share a style, in order.
pub open spec fn runs(items: Seq<StyledGlyph>, params: DrawParam) -> Seq<DrawCallView>
    decreases items.len(),
{
    if items.len() == 0 {
        Seq::empty()
    } else {
        let before = runs(items.drop_last(), params);
        let item = items.last();
        if before.len() > 0 && before.last().style == item.style {
            before.drop_last().push(
                DrawCallView { glyphs: before.last().glyphs.push(item.glyph), ..before.last() },
            )
        } else {
            before.push(
                DrawCallView {
                    style: item.style,
                    rotation: params.rotation,
                    zoom: params.zoom,
                    glyphs: seq![item.glyph],
                },
            )
        }
    }
}

/// The glyphs of some draw calls, each with the style of its call, in
/// order.
pub open spec fn drawn(calls: Seq<DrawCallView>) -> Seq<StyledGlyph>
    decreases calls.len(),
{
    if calls.len() == 0 {
        Seq::empty()
    } else {
        drawn(calls.drop_last()) + Seq::new(
            calls.last().glyphs.len(),
            |i: int| StyledGlyph { style: calls.last().style, glyph: calls.last().glyphs[i] },
        )
    }
}

/// Grouping loses nothing and invents nothing: the draw calls draw the
/// given glyphs, each in its style, in the given order. No draw call is
/// empty, each carries the rotation and the zoom of the flush, and no two
/// neighbours share a style, so there are as few draw calls as the order of
/// the glyphs allows.
pub proof fn lemma_runs_draw_the_items(items: Seq<StyledGlyph>, params: DrawParam)
    ensures
        drawn(runs(items, params)) == items,
        items.len() > 0 ==> runs(items, params).len() > 0 && runs(items, params).last().style
            == items.last().style,
        forall|k: int|
            0 <= k < runs(items, params).len() ==> {
                let call = #[trigger] runs(items, params)[k];
                call.glyphs.len() > 0 && call.rotation == params.rotation && call.zoom
                    == params.zoom
            },
        forall|k: int|
            0 <= k < runs(items, params).len() - 1 ==> (#[trigger] runs(items, params)[k]).style
                != runs(items, params)[k + 1].style,
    decreases items.len(),
{
    if items.len() > 0 {
        let rest = items.drop_last();
        let item = items.last();
        lemma_runs_draw_the_items(rest, params);
        let before = runs(rest, params);
        let after = runs(items, params);
        if before.len() > 0 && before.last().style == item.style {
            let grown = DrawCallView {
                glyphs: before.last().glyphs.push(item.glyph),
                ..before.last()
            };
            assert(after == before.drop_last().push(grown));
            assert(after.drop_last() =~= before.drop_last());
            let tail = Seq::new(
                before.last().glyphs.len(),
                |i: int| StyledGlyph { style: before.last().style, glyph: before.last().glyphs[i] },
            );
            let grown_tail = Seq::new(
                grown.glyphs.len(),
                |i: int| StyledGlyph { style: grown.style, glyph: grown.glyphs[i] },
            );
            assert(grown_tail =~= tail.push(item));
            assert(drawn(before) == drawn(before.drop_last()) + tail);
            assert(drawn(after) == drawn(before.drop_last()) + grown_tail);
            assert(drawn(before.drop_last()) + tail.push(item) =~= (drawn(before.drop_last())
                + tail).push(item));
            assert(rest.push(item) =~= items);
            assert forall|k: int| 0 <= k < after.len() - 1 implies (#[trigger] after[k]).style
                != after[k + 1].style by {
                assert(after[k] == before[k]);
                if k + 1 < after.len() - 1 {
                    assert(after[k + 1] == before[k + 1]);
                }
            }
        } else {
            let fresh = DrawCallView {
                style: item.style,
                rotation: params.rotation,
                zoom: params.zoom,
                glyphs: seq![item.glyph],
            };
            assert(after == before.push(fresh));
            assert(after.drop_last() =~= before);
            let fresh_tail = Seq::new(
                fresh.glyphs.len(),
                |i: int| StyledGlyph { style: fresh.style, glyph: fresh.glyphs[i] },
            );
            assert(fresh_tail =~= seq![item]);
            assert(drawn(after) == drawn(before) + fresh_tail);
            assert(rest + seq![item] =~= items);
            assert forall|k: int| 0 <= k < after.len() - 1 implies (#[trigger] after[k]).style
                != after[k + 1].style by {
                assert(after[k] == before[k]);
                if k + 1 < after.len() - 1 {
                    assert(after[k + 1] == before[k + 1]);
                }
            }
        }
    }
}

/// The mathematical value of one entry of the queue.
pub ghost struct EntryView {
    pub batch: BatchView,
    /// Where the text goes, relative to the anchor of the flush.
    pub offset: Point,
    /// The colour that replaces that of every fragment, if any.
    pub color: Option<Color>,
}

impl EntryView {
    /// The glyphs of the entry at their places: those of the lines that
    /// its layout keeps.
    pub open spec fn items(self, fonts: Seq<FontView>, params: DrawParam) -> Seq<StyledGlyph> {
        let layout = self.batch.layout(fonts);
        items_upto(
            self.batch.glyphs(fonts),
            self.batch.styles(),
            layout.lines,
            anchor(params, self.offset),
            self.color,
            layout.lines.len() as int,
        )
    }

    /// The draw calls of the entry.
    pub open spec fn calls(self, fonts: Seq<FontView>, params: DrawParam) -> Seq<DrawCallView> {
        runs(self.items(fonts, params), params)
    }
}

/// The draw calls of the first `n` entries, in the order of the entries.
pub open spec fn calls_upto(
    entries: Seq<EntryView>,
    fonts: Seq<FontView>,
    params: DrawParam,
    n: int,
) -> Seq<DrawCallView>
    decreases n,
{
    if n <= 0 {
        Seq::empty()
    } else {
        calls_upto(entries, fonts, params, n - 1) + entries[n - 1].calls(fonts, params)
    }
}

/// The draw calls that a flush of these entries submits.
pub open spec fn queue_calls(entries: Seq<EntryView>, fonts: Seq<FontView>, params: DrawParam) -> Seq<
    DrawCallView,
> {
    calls_upto(entries, fonts, params, entries.len() as int)
}

/// Groups placed glyphs into draw calls; see [`runs`].
pub fn group_runs(items: &Vec<StyledGlyph>, params: DrawParam) -> (calls: Vec<DrawCall>)
    ensures
        call_views(calls@) == runs(items@, params),
{
    let mut calls: Vec<DrawCall> = Vec::new();
    if items.len() == 0 {
        assert(call_views(calls@) =~= Seq::empty());
        return calls;
    }
    let mut style: Style = items[0].style;
    let mut current: Vec<PlacedGlyph> = Vec::new();
    current.push(items[0].glyph);
    let mut i: usize = 1;
    proof {
        assert(items@.take(1).drop_last() =~= Seq::<StyledGlyph>::empty());
        assert(runs(items@.take(1).drop_last(), params) =~= Seq::empty());
        assert(call_views(calls@) =~= Seq::empty());
        assert(current@ =~= seq![items@[0].glyph]);
    }
    while i < items.len()
        invariant
            1 <= i <= items.len(),
            runs(items@.take(i as int), params) == call_views(calls@).push(
                DrawCallView {
                    style: style,
                    rotation: params.rotation,
                    zoom: params.zoom,
                    glyphs: current@,
                },
            ),
        decreases items.len() - i,
    {
        let item = items[i];
        proof {
            assert(items@.take(i as int + 1).drop_last() =~= items@.take(i as int));
            assert(items@.take(i as int + 1).last() == item);
        }
        let ghost done = call_views(calls@);
        let ghost open = DrawCallView {
            style: style,
            rotation: params.rotation,
            zoom: params.zoom,
            glyphs: current@,
        };
        if item.style == style {
            current.push(item.glyph);
            proof {
                assert(done.push(open).drop_last() =~= done);
            }
        } else {
            let mut finished: Vec<PlacedGlyph> = Vec::new();
            core::mem::swap(&mut finished, &mut current);
            let call = DrawCall {
                style,
                rotation: params.rotation,
                zoom: params.zoom,
                glyphs: finished,
            };
            calls.push(call);
            proof {
                assert(call@ == open);
                assert(call_views(calls@) =~= done.push(open));
            }
            style = item.style;
            current.push(item.glyph);
            proof {
                assert(current@ =~= seq![item.glyph]);
            }
        }
        i += 1;
    }
    proof {
        assert(items@.take(items.len() as int) =~= items@);
    }
    let ghost done = call_views(calls@);
    let call = DrawCall { style, rotation: params.rotation, zoom: params.zoom, glyphs: current };
    calls.push(call);
    assert(call_views(calls@) =~= done.push(call@));
    calls
}

/// Puts the glyphs of the lines of `layout` at their places; see
/// [`items_upto`].
pub fn place_glyphs(
    glyphs: &Vec<Glyph>,
    styles: &Vec<Style>,
    layout: &Layout,
    params: DrawParam,
    offset: Point,
    color: Option<Color>,
) -> (items: Vec<StyledGlyph>)
    requires
        styles.len() == glyphs.len(),
        forall|k: int|
            0 <= k < layout.lines@.len() ==> (#[trigger] layout.lines@[k]).start
                <= layout.lines@[k].end <= glyphs.len(),
    ensures
        items@ == items_upto(
            glyphs@,
            styles@,
            layout@.lines,
            anchor(params, offset),
            color,
            layout@.lines.len() as int,
        ),
{
    let at_x: i64 = params.dest.x as i64 + offset.x as i64;
    let at_y: i64 = params.dest.y as i64 + offset.y as i64;
    let ghost at = anchor(params, offset);
    let mut items: Vec<StyledGlyph> = Vec::new();
    let mut k: usize = 0;
    while k < layout.lines.len()
        invariant
            k <= layout.lines.len(),
            styles.len() == glyphs.len(),
            at == anchor(params, offset),
            at_x == at.x,
            at_y == at.y,
            -0x1_0000_0000 <= at_x <= 0x1_0000_0000,
            -0x1_0000_0000 <= at_y <= 0x1_0000_0000,
            forall|k: int|
                0 <= k < layout.lines@.len() ==> (#[trigger] layout.lines@[k]).start
                    <= layout.lines@[k].end <= glyphs.len(),
            items@ == items_upto(glyphs@, styles@, layout@.lines, at, color, k as int),
        decreases layout.lines.len() - k,
    {
        let line = layout.lines[k];
        let ghost view = layout@.lines[k as int];
        let ghost all = line_items(glyphs@, styles@, view, at, color);
        let ghost before = items@;
        assert(view == line@);
        let mut j: usize = line.start;
        let mut pen: u32 = 0;
        while j < line.end
            invariant
                line.start <= j <= line.end <= glyphs.len(),
                styles.len() == glyphs.len(),
                view == line@,
                at_x == at.x,
                at_y == at.y,
                -0x1_0000_0000 <= at_x <= 0x1_0000_0000,
                -0x1_0000_0000 <= at_y <= 0x1_0000_0000,
                all == line_items(glyphs@, styles@, view, at, color),
                span_width(glyphs@, line.start as int, j as int) >= 0,
                pen == clamp32(span_width(glyphs@, line.start as int, j as int)),
                items@ == before + all.take(j - line.start),
            decreases line.end - j,
        {
            let glyph = glyphs[j];
            let style = match color {
                Some(color) => Style { font: styles[j].font, scale: styles[j].scale, color },
                None => styles[j],
            };
            let item = StyledGlyph {
                style,
                glyph: PlacedGlyph {
                    ch: glyph.ch,
                    x: at_x + line.x as i64 + pen as i64,
                    y: at_y + line.y as i64,
                },
            };
            proof {
                let i = j - line.start;
                assert(all[i] == item);
                assert(all.take(i + 1) =~= all.take(i).push(item));
                assert(before + all.take(i).push(item) =~= (before + all.take(i)).push(item));
            }
            items.push(item);
            pen = pen.saturating_add(glyph.advance);
            j += 1;
        }
        proof {
            assert(all.take(all.len() as int) =~= all);
        }
        k += 1;
    }
    items
}

/// One entry of the queue.
#[derive(Debug, Clone, Copy)]
struct QueueEntry<'a> {
    batch: &'a TextBatch,
    offset: Point,
    color: Option<Color>,
}

impl<'a> View for QueueEntry<'a> {
    type V = EntryView;

    closed spec fn view(&self) -> EntryView {
        EntryView { batch: self.batch@, offset: self.offset, color: self.color }
    }
}

/// Text that waits to be drawn, in the order it was queued.
#[derive(Debug)]
pub struct DrawQueue<'a> {
    entries: Vec<QueueEntry<'a>>,
}

impl<'a> View for DrawQueue<'a> {
    type V = Seq<EntryView>;

    closed spec fn view(&self) -> Seq<EntryView> {
        Seq::new(self.entries@.len(), |i: int| self.entries@[i]@)
    }
}

/// Computes the draw calls of one batch; see [`EntryView::calls`].
pub fn batch_calls(
    batch: &TextBatch,
    fonts: &FontRegistry,
    params: DrawParam,
    offset: Point,
    color: Option<Color>,
) -> (calls: Vec<DrawCall>)
    requires
        batch.wf(),
    ensures
        call_views(calls@) == (EntryView { batch: batch@, offset, color }).calls(fonts@, params),
{
    let resolved = batch.resolve(fonts);
    proof {
        lemma_one_style_per_glyph(batch@, fonts@, batch@.fragments.len() as int);
        lemma_layout_partition(resolved.0@, batch@.effective_bounds(), batch@.alignment);
    }
    let items = match batch.cached_layout(fonts) {
        Some(layout) => {
            assert forall|k: int| 0 <= k < layout.lines@.len() implies (
            #[trigger] layout.lines@[k]).start <= layout.lines@[k].end <= resolved.0.len() by {
                assert(layout@.lines[k] == layout.lines@[k]@);
            }
            place_glyphs(&resolved.0, &resolved.1, layout, params, offset, color)
        },
        None => {
            let layout = layout_glyphs(&resolved.0, batch.effective_bounds(), batch.alignment());
            assert forall|k: int| 0 <= k < layout.lines@.len() implies (
            #[trigger] layout.lines@[k]).start <= layout.lines@[k].end <= resolved.0.len() by {
                assert(layout@.lines[k] == layout.lines@[k]@);
            }
            place_glyphs(&resolved.0, &resolved.1, &layout, params, offset, color)
        },
    };
    group_runs(&items, params)
}

impl<'a> DrawQueue<'a> {
    /// Whether every queued batch is well-formed. Every constructor and
    /// every method sees to that.
    pub closed spec fn wf(&self) -> bool {
        forall|i: int| 0 <= i < self.entries@.len() ==> (#[trigger] self.entries@[i]).batch.wf()
    }

    /// A queue with nothing in it.
    pub fn new() -> (queue: DrawQueue<'a>)
        ensures
            queue@ == Seq::<EntryView>::empty(),
            queue.wf(),
    {
        let queue = DrawQueue { entries: Vec::new() };
        assert(queue@ =~= Seq::<EntryView>::empty());
        queue
    }

    /// The number of entries that wait to be drawn.
    pub fn len(&self) -> (n: usize)
        ensures
            n == self@.len(),
    {
        self.entries.len()
    }

    /// Queues a batch to be drawn at `offset` from the anchor of the next
    /// flush, in its own colours or all in `color`. Nothing is drawn yet,
    /// and the batch stays with its owner.
    pub fn queue(&mut self, batch: &'a TextBatch, offset: Point, color: Option<Color>)
        requires
            old(self).wf(),
            batch.wf(),
        ensures
            final(self)@ == old(self)@.push(EntryView { batch: batch@, offset, color }),
            final(self).wf(),
    {
        self.entries.push(QueueEntry { batch, offset, color });
        assert(self@ =~= old(self)@.push(EntryView { batch: batch@, offset, color }));
    }

    /// Empties the queue without drawing anything.
    pub fn clear(&mut self)
        ensures
            final(self)@ == Seq::<EntryView>::empty(),
            final(self).wf(),
    {
        self.entries.clear();
        assert(self@ =~= Seq::<EntryView>::empty());
    }

    /// Draws everything that is queued, oldest first, and empties the
    /// queue. Each entry goes to the anchor of `params` moved by its own
    /// offset, and gives one draw call for each run of glyphs that share a
    /// style. The draw calls are submitted to `ctx`; nothing else in it
    /// changes. A flush of an empty queue submits nothing.
    pub fn draw_queued(&mut self, ctx: &mut Context, params: DrawParam)
        requires
            old(self).wf(),
        ensures
            final(self)@ == Seq::<EntryView>::empty(),
            final(self).wf(),
            final(ctx)@ == (ContextView {
                calls: old(ctx)@.calls + queue_calls(old(self)@, old(ctx)@.fonts, params),
                ..old(ctx)@
            }),
            old(self)@.len() == 0 ==> final(ctx)@ == old(ctx)@,
    {
        let mut n: usize = 0;
        proof {
            assert(old(ctx)@.calls + Seq::<DrawCallView>::empty() =~= old(ctx)@.calls);
        }
        while n < self.entries.len()
            invariant
                n <= self.entries.len(),
                self.wf(),
                self@ == old(self)@,
                ctx@ == (ContextView {
                    calls: old(ctx)@.calls + calls_upto(
                        old(self)@,
                        old(ctx)@.fonts,
                        params,
                        n as int,
                    ),
                    ..old(ctx)@
                }),
            decreases self.entries.len() - n,
        {
            let entry = self.entries[n];
            let ghost before = ctx@.calls;
            let ghost sofar = calls_upto(old(self)@, old(ctx)@.fonts, params, n as int);
            let calls = batch_calls(entry.batch, ctx.fonts(), params, entry.offset, entry.color);
            proof {
                assert(old(self)@[n as int] == entry@);
                assert(old(ctx)@.calls + (sofar + call_views(calls@)) =~= (old(ctx)@.calls
                    + sofar) + call_views(calls@));
            }
            ctx.submit_all(calls);
            n += 1;
        }
        self.entries.clear();
        assert(self@ =~= Seq::<EntryView>::empty());
    }
}

} // verus!
