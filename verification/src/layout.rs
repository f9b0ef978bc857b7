//! Line breaking and measurement of a sequence of glyphs.
//!
//! The layout is greedy. A line takes its first glyph whatever its width,
//! then every following glyph for as long as the pen stays within the
//! width of the box. The glyph that would leave the box ends the line:
//! after the last blank of the line if it has one, else right before that
//! glyph. A line break ends its line and belongs to it. Lines are stacked
//! until their heights add up to more than the height of the box; what
//! follows is left out.

use vstd::prelude::*;
use crate::fonts::Glyph;
use crate::geometry::{Align, Bounds, Limit};

verus! {

/// Whether a glyph is a line break.
pub open spec fn is_line_break(g: Glyph) -> bool {
    g.ch == '\n'
}

/// Whether a line may be broken after a glyph.
pub open spec fn is_blank(g: Glyph) -> bool {
    g.ch == ' ' || g.ch == '\t'
}

/// A length as a `u32`, capped at the largest one.
pub open spec fn clamp32(length: int) -> u32 {
    if length <= 0 {
        0
    } else if length > u32::MAX {
        u32::MAX
    } else {
        length as u32
    }
}

/// The sum of the advances of the glyphs from `start` up to `end`.
pub open spec fn span_width(glyphs: Seq<Glyph>, start: int, end: int) -> int
    decreases end - start,
{
    if end <= start {
        0
    } else {
        span_width(glyphs, start, end - 1) + glyphs[end - 1].advance
    }
}

/// The largest height among the glyphs from `start` up to `end`.
pub open spec fn span_height(glyphs: Seq<Glyph>, start: int, end: int) -> u32
    decreases end - start,
{
    if end <= start {
        0
    } else if span_height(glyphs, start, end - 1) >= glyphs[end - 1].height {
        span_height(glyphs, start, end - 1)
    } else {
        glyphs[end - 1].height
    }
}

/// Where the line that starts at `start` ends, given that the glyphs before
/// `at` are on it, that they advanced the pen by `pen`, and that the line
/// can last be broken at `brk` (`start` if nowhere yet).
pub open spec fn scan(glyphs: Seq<Glyph>, width: Limit, start: int, at: int, pen: int, brk: int) -> int
    decreases glyphs.len() - at,
{
    if at >= glyphs.len() {
        glyphs.len() as int
    } else if is_line_break(glyphs[at]) {
        at + 1
    } else if width.exceeded_by(pen + glyphs[at].advance) {
        if brk > start {
            brk
        } else {
            at
        }
    } else {
        scan(
            glyphs,
            width,
            start,
            at + 1,
            pen + glyphs[at].advance,
            if is_blank(glyphs[at]) {
                at + 1
            } else {
                brk
            },
        )
    }
}

/// Where the line that starts at `start` ends: the index after its last
/// glyph.
pub open spec fn line_end(glyphs: Seq<Glyph>, width: Limit, start: int) -> int {
    if is_line_break(glyphs[start]) {
        start + 1
    } else {
        scan(
            glyphs,
            width,
            start,
            start + 1,
            glyphs[start].advance as int,
            if is_blank(glyphs[start]) {
                start + 1
            } else {
                start
            },
        )
    }
}

/// One line of a layout.
#[derive(Debug, Clone, Copy, PartialEq, Eq, Structural)]
pub struct Line {
    /// The index of the first glyph of the line.
    pub start: usize,
    /// The index after the last glyph of the line.
    pub end: usize,
    /// The sum of the advances of its glyphs, capped.
    pub width: u32,
    /// The largest height among its glyphs.
    pub height: u32,
    /// How far alignment moves the line to the right.
    pub x: u32,
    /// How far the line lies below the top of the text, capped.
    pub y: u32,
}

/// The mathematical value of a [`Line`].
pub ghost struct LineView {
    pub start: int,
    pub end: int,
    pub width: u32,
    pub height: u32,
    pub x: u32,
    pub y: u32,
}

impl View for Line {
    type V = LineView;

    open spec fn view(&self) -> LineView {
        LineView {
            start: self.start as int,
            end: self.end as int,
            width: self.width,
            height: self.height,
            x: self.x,
            y: self.y,
        }
    }
}

/// The values of a list of lines, in order.
pub open spec fn line_views(lines: Seq<Line>) -> Seq<LineView> {
    Seq::new(lines.len(), |i: int| lines[i]@)
}

/// The line of `glyphs` from `start` up to `end` that lies `y` below the
/// top, not yet aligned.
pub open spec fn raw_line(glyphs: Seq<Glyph>, start: int, end: int, y: int) -> LineView {
    LineView {
        start: start,
        end: end,
        width: clamp32(span_width(glyphs, start, end)),
        height: span_height(glyphs, start, end),
        x: 0,
        y: clamp32(y),
    }
}

/// The lines of the glyphs from `start` on, the first of them `y` below the
/// top, as far as they are kept: a line is kept unless the lines above it
/// are taller than the box together.
pub open spec fn lines_from(glyphs: Seq<Glyph>, bounds: Bounds, start: int, y: int) -> Seq<LineView>
    decreases glyphs.len() - start,
{
    if start < 0 || start >= glyphs.len() || bounds.height.exceeded_by(y) {
        Seq::empty()
    } else {
        let end = line_end(glyphs, bounds.width, start);
        if end <= start || end > glyphs.len() {
            Seq::empty()
        } else {
            let line = raw_line(glyphs, start, end, y);
            seq![line] + lines_from(glyphs, bounds, end, y + line.height)
        }
    }
}

/// The width of the widest of some lines.
pub open spec fn widest(lines: Seq<LineView>) -> u32
    decreases lines.len(),
{
    if lines.len() == 0 {
        0
    } else if widest(lines.drop_last()) >= lines.last().width {
        widest(lines.drop_last())
    } else {
        lines.last().width
    }
}

/// The sum of the heights of some lines.
pub open spec fn stacked_height(lines: Seq<LineView>) -> int
    decreases lines.len(),
{
    if lines.len() == 0 {
        0
    } else {
        stacked_height(lines.drop_last()) + lines.last().height
    }
}

/// How far alignment moves a line of width `line_width` to the right
/// within a box of width `box_width`. A line wider than the box is not
/// moved.
pub open spec fn align_offset(align: Align, box_width: u32, line_width: u32) -> u32 {
    if line_width >= box_width {
        0
    } else {
        match align {
            Align::Left => 0,
            Align::Center => ((box_width - line_width) / 2) as u32,
            Align::Right => (box_width - line_width) as u32,
        }
    }
}

/// The width that lines are aligned within: that of the box, or that of the
/// widest line where the box has no width.
pub open spec fn align_width(bounds: Bounds, measured: u32) -> u32 {
    match bounds.width {
        Limit::Finite(width) => width,
        Limit::Infinite => measured,
    }
}

/// The same lines, each moved to where alignment within `box_width` puts
/// it.
pub open spec fn aligned(lines: Seq<LineView>, align: Align, box_width: u32) -> Seq<LineView> {
    Seq::new(
        lines.len(),
        |k: int| LineView { x: align_offset(align, box_width, lines[k].width), ..lines[k] },
    )
}

/// A layout: the lines that are kept, and the size of the box around them.
#[derive(Debug, Clone, PartialEq, Eq)]
pub struct Layout {
    pub lines: Vec<Line>,
    /// The width of the widest line.
    pub width: u32,
    /// The sum of the heights of the lines, capped.
    pub height: u32,
}

/// The mathematical value of a [`Layout`].
pub ghost struct LayoutView {
    pub lines: Seq<LineView>,
    pub width: u32,
    pub height: u32,
}

impl View for Layout {
    type V = LayoutView;

    open spec fn view(&self) -> LayoutView {
        LayoutView { lines: line_views(self.lines@), width: self.width, height: self.height }
    }
}

/// The layout of `glyphs` in a box of `bounds` with alignment `align`.
pub open spec fn spec_layout(glyphs: Seq<Glyph>, bounds: Bounds, align: Align) -> LayoutView {
    let raw = lines_from(glyphs, bounds, 0, 0);
    LayoutView {
        lines: aligned(raw, align, align_width(bounds, widest(raw))),
        width: widest(raw),
        height: clamp32(stacked_height(raw)),
    }
}

/// A scan never ends before it started, nor beyond the last glyph.
pub proof fn lemma_scan_bounds(glyphs: Seq<Glyph>, width: Limit, start: int, at: int, pen: int, brk: int)
    requires
        0 <= start < at <= glyphs.len(),
        start <= brk <= at,
    ensures
        start < scan(glyphs, width, start, at, pen, brk) <= glyphs.len(),
    decreases glyphs.len() - at,
{
    if at < glyphs.len() && !is_line_break(glyphs[at]) && !width.exceeded_by(
        pen + glyphs[at].advance,
    ) {
        lemma_scan_bounds(
            glyphs,
            width,
            start,
            at + 1,
            pen + glyphs[at].advance,
            if is_blank(glyphs[at]) {
                at + 1
            } else {
                brk
            },
        );
    }
}

/// Every line holds at least one glyph and none beyond the last.
pub proof fn lemma_line_end_bounds(glyphs: Seq<Glyph>, width: Limit, start: int)
    requires
        0 <= start < glyphs.len(),
    ensures
        start < line_end(glyphs, width, start) <= glyphs.len(),
{
    if !is_line_break(glyphs[start]) {
        lemma_scan_bounds(
            glyphs,
            width,
            start,
            start + 1,
            glyphs[start].advance as int,
            if is_blank(glyphs[start]) {
                start + 1
            } else {
                start
            },
        );
    }
}

/// The kept lines split a stretch of the glyphs without gap or overlap: the
/// first line starts where the stretch starts, every other line starts
/// where the line before it ends, and every line holds at least one glyph
/// and none beyond the last.
pub proof fn lemma_lines_partition(glyphs: Seq<Glyph>, bounds: Bounds, start: int, y: int)
    requires
        0 <= start,
    ensures
        ({
            let lines = lines_from(glyphs, bounds, start, y);
            &&& lines.len() > 0 ==> lines[0].start == start
            &&& forall|k: int|
                0 <= k < lines.len() ==> start <= (#[trigger] lines[k]).start < lines[k].end
                    <= glyphs.len()
            &&& forall|k: int|
                0 <= k < lines.len() - 1 ==> (#[trigger] lines[k + 1]).start == lines[k].end
        }),
    decreases glyphs.len() - start,
{
    let lines = lines_from(glyphs, bounds, start, y);
    if start < glyphs.len() && !bounds.height.exceeded_by(y) {
        lemma_line_end_bounds(glyphs, bounds.width, start);
        let end = line_end(glyphs, bounds.width, start);
        let line = raw_line(glyphs, start, end, y);
        let rest = lines_from(glyphs, bounds, end, y + line.height);
        lemma_lines_partition(glyphs, bounds, end, y + line.height);
        assert(lines == seq![line] + rest);
        assert(lines[0] == line);
        assert forall|k: int| 0 <= k < lines.len() implies start <= (#[trigger] lines[k]).start
            < lines[k].end <= glyphs.len() by {
            if k > 0 {
                assert(lines[k] == rest[k - 1]);
            }
        }
        assert forall|k: int| 0 <= k < lines.len() - 1 implies (#[trigger] lines[k + 1]).start
            == lines[k].end by {
            assert(lines[k + 1] == rest[k]);
            if k > 0 {
                assert(lines[k] == rest[k - 1]);
                assert(rest[(k - 1) + 1].start == rest[k - 1].end);
            } else {
                assert(rest[0].start == end);
            }
        }
    }
}

/// The lines of a layout split a stretch of the glyphs that starts with the
/// first glyph, without gap or overlap.
pub proof fn lemma_layout_partition(glyphs: Seq<Glyph>, bounds: Bounds, align: Align)
    ensures
        ({
            let lines = spec_layout(glyphs, bounds, align).lines;
            &&& lines.len() > 0 ==> lines[0].start == 0
            &&& forall|k: int|
                0 <= k < lines.len() ==> 0 <= (#[trigger] lines[k]).start < lines[k].end
                    <= glyphs.len()
            &&& forall|k: int|
                0 <= k < lines.len() - 1 ==> (#[trigger] lines[k + 1]).start == lines[k].end
        }),
{
    lemma_lines_partition(glyphs, bounds, 0, 0);
}

/// Whether the glyphs from `start` up to `end` are what is left of one
/// paragraph: no line break among them but, at most, the last of them, and
/// either that line break or the end of the text behind them.
pub open spec fn ends_paragraph(glyphs: Seq<Glyph>, start: int, end: int) -> bool {
    &&& end == glyphs.len() || is_line_break(glyphs[end - 1])
    &&& forall|j: int| start <= j < end - 1 ==> !is_line_break(#[trigger] glyphs[j])
}

/// Without a width to stay within, a scan ends at nothing but a line break
/// or the end of the text.
pub proof fn lemma_scan_unbounded(glyphs: Seq<Glyph>, start: int, at: int, pen: int, brk: int)
    requires
        0 <= start < at <= glyphs.len(),
    ensures
        at <= scan(glyphs, Limit::Infinite, start, at, pen, brk) <= glyphs.len(),
        ends_paragraph(glyphs, at, scan(glyphs, Limit::Infinite, start, at, pen, brk)),
    decreases glyphs.len() - at,
{
    if at < glyphs.len() && !is_line_break(glyphs[at]) {
        lemma_scan_unbounded(
            glyphs,
            start,
            at + 1,
            pen + glyphs[at].advance,
            if is_blank(glyphs[at]) {
                at + 1
            } else {
                brk
            },
        );
    }
}

/// In a box without a width nothing is wrapped: every line ends with a line
/// break or with the text, and holds no other line break.
pub proof fn lemma_unbounded_wraps_nothing(glyphs: Seq<Glyph>, bounds: Bounds, start: int, y: int)
    requires
        0 <= start,
        bounds.width is Infinite,
    ensures
        forall|k: int|
            0 <= k < lines_from(glyphs, bounds, start, y).len() ==> ends_paragraph(
                glyphs,
                (#[trigger] lines_from(glyphs, bounds, start, y)[k]).start,
                lines_from(glyphs, bounds, start, y)[k].end,
            ),
    decreases glyphs.len() - start,
{
    let lines = lines_from(glyphs, bounds, start, y);
    if start < glyphs.len() && !bounds.height.exceeded_by(y) {
        lemma_line_end_bounds(glyphs, bounds.width, start);
        let end = line_end(glyphs, bounds.width, start);
        let line = raw_line(glyphs, start, end, y);
        let rest = lines_from(glyphs, bounds, end, y + line.height);
        if !is_line_break(glyphs[start]) {
            lemma_scan_unbounded(
                glyphs,
                start,
                start + 1,
                glyphs[start].advance as int,
                if is_blank(glyphs[start]) {
                    start + 1
                } else {
                    start
                },
            );
        }
        assert(ends_paragraph(glyphs, start, end));
        lemma_unbounded_wraps_nothing(glyphs, bounds, end, y + line.height);
        assert(lines == seq![line] + rest);
        assert forall|k: int| 0 <= k < lines.len() implies ends_paragraph(
            glyphs,
            (#[trigger] lines[k]).start,
            lines[k].end,
        ) by {
            if k > 0 {
                assert(lines[k] == rest[k - 1]);
            } else {
                assert(lines[0] == line);
            }
        }
    }
}

/// In a box without a height no line is left out: the last line ends with
/// the text.
pub proof fn lemma_unbounded_keeps_all(glyphs: Seq<Glyph>, bounds: Bounds, start: int, y: int)
    requires
        0 <= start < glyphs.len(),
        bounds.height is Infinite,
    ensures
        lines_from(glyphs, bounds, start, y).len() > 0,
        lines_from(glyphs, bounds, start, y).last().end == glyphs.len(),
    decreases glyphs.len() - start,
{
    let lines = lines_from(glyphs, bounds, start, y);
    lemma_line_end_bounds(glyphs, bounds.width, start);
    let end = line_end(glyphs, bounds.width, start);
    let line = raw_line(glyphs, start, end, y);
    let rest = lines_from(glyphs, bounds, end, y + line.height);
    assert(lines == seq![line] + rest);
    if end < glyphs.len() {
        lemma_unbounded_keeps_all(glyphs, bounds, end, y + line.height);
        assert(lines.last() == rest.last());
    } else {
        assert(rest.len() == 0);
        assert(lines.last() == line);
    }
}

/// A stack with one more line on top is taller by the height of that line.
pub proof fn lemma_stacked_below(first: LineView, rest: Seq<LineView>)
    ensures
        stacked_height(seq![first] + rest) == first.height + stacked_height(rest),
    decreases rest.len(),
{
    let all = seq![first] + rest;
    if rest.len() == 0 {
        assert(all.drop_last() =~= Seq::<LineView>::empty());
        assert(stacked_height(all.drop_last()) == 0);
    } else {
        lemma_stacked_below(first, rest.drop_last());
        assert(all.drop_last() =~= seq![first] + rest.drop_last());
        assert(all.last() == rest.last());
    }
}

/// Lines are stacked without gaps, and the stack is cut where it leaves
/// the box: every kept line lies as far below the first as the lines
/// above it are tall together, those lines are not taller together than
/// the box, and where text is left over the kept lines are.
pub proof fn lemma_lines_stack(glyphs: Seq<Glyph>, bounds: Bounds, start: int, y: int)
    requires
        0 <= start,
        0 <= y,
    ensures
        ({
            let lines = lines_from(glyphs, bounds, start, y);
            &&& forall|k: int|
                0 <= k < lines.len() ==> (#[trigger] lines[k]).y == clamp32(
                    y + stacked_height(lines.take(k)),
                ) && !bounds.height.exceeded_by(y + stacked_height(lines.take(k)))
            &&& start < glyphs.len() && (lines.len() == 0 || lines.last().end < glyphs.len())
                ==> bounds.height.exceeded_by(y + stacked_height(lines))
        }),
    decreases glyphs.len() - start,
{
    let lines = lines_from(glyphs, bounds, start, y);
    if start < glyphs.len() && !bounds.height.exceeded_by(y) {
        lemma_line_end_bounds(glyphs, bounds.width, start);
        let end = line_end(glyphs, bounds.width, start);
        let line = raw_line(glyphs, start, end, y);
        let rest = lines_from(glyphs, bounds, end, y + line.height);
        lemma_lines_stack(glyphs, bounds, end, y + line.height);
        assert(lines == seq![line] + rest);
        lemma_stacked_below(line, rest);
        assert forall|k: int| 0 <= k < lines.len() implies (#[trigger] lines[k]).y == clamp32(
            y + stacked_height(lines.take(k)),
        ) && !bounds.height.exceeded_by(y + stacked_height(lines.take(k))) by {
            if k > 0 {
                assert(lines[k] == rest[k - 1]);
                assert(lines.take(k) =~= seq![line] + rest.take(k - 1));
                lemma_stacked_below(line, rest.take(k - 1));
            } else {
                assert(lines[0] == line);
                assert(lines.take(0) =~= Seq::<LineView>::empty());
            }
        }
        if rest.len() > 0 {
            assert(lines.last() == rest.last());
        } else {
            assert(lines.last() == line);
        }
    } else {
        assert(lines.len() == 0);
        assert(lines.take(0) =~= lines);
    }
}

/// A line stays within the width of the box, unless its first glyph alone
/// is wider: then the line is as wide as that glyph.
pub proof fn lemma_scan_fits(glyphs: Seq<Glyph>, max: u32, start: int, at: int, pen: int, brk: int)
    requires
        0 <= start < at <= glyphs.len(),
        start <= brk <= at,
        pen == span_width(glyphs, start, at),
        pen <= max || pen == glyphs[start].advance,
        span_width(glyphs, start, brk) <= max || span_width(glyphs, start, brk)
            == glyphs[start].advance || brk == start,
        forall|j: int|
            0 <= j < glyphs.len() && is_line_break(#[trigger] glyphs[j]) ==> glyphs[j].advance
                == 0,
    ensures
        ({
            let end = scan(glyphs, Limit::Finite(max), start, at, pen, brk);
            span_width(glyphs, start, end) <= max || span_width(glyphs, start, end)
                == glyphs[start].advance
        }),
    decreases glyphs.len() - at,
{
    if at < glyphs.len() {
        if is_line_break(glyphs[at]) {
            assert(span_width(glyphs, start, at + 1) == pen + glyphs[at].advance);
        } else if !Limit::Finite(max).exceeded_by(pen + glyphs[at].advance) {
            assert(span_width(glyphs, start, at + 1) == pen + glyphs[at].advance);
            lemma_scan_fits(
                glyphs,
                max,
                start,
                at + 1,
                pen + glyphs[at].advance,
                if is_blank(glyphs[at]) {
                    at + 1
                } else {
                    brk
                },
            );
        }
    }
}

/// Every kept line of a box of width `max` stays within that width, unless
/// its first glyph alone is wider: then the line is as wide as that glyph.
pub proof fn lemma_lines_fit(glyphs: Seq<Glyph>, bounds: Bounds, max: u32, start: int, y: int)
    requires
        0 <= start,
        bounds.width == Limit::Finite(max),
        forall|j: int|
            0 <= j < glyphs.len() && is_line_break(#[trigger] glyphs[j]) ==> glyphs[j].advance
                == 0,
    ensures
        forall|k: int|
            0 <= k < lines_from(glyphs, bounds, start, y).len() ==> {
                let line = #[trigger] lines_from(glyphs, bounds, start, y)[k];
                span_width(glyphs, line.start, line.end) <= max || span_width(
                    glyphs,
                    line.start,
                    line.end,
                ) == glyphs[line.start].advance
            },
    decreases glyphs.len() - start,
{
    let lines = lines_from(glyphs, bounds, start, y);
    if start < glyphs.len() && !bounds.height.exceeded_by(y) {
        lemma_line_end_bounds(glyphs, bounds.width, start);
        let end = line_end(glyphs, bounds.width, start);
        let line = raw_line(glyphs, start, end, y);
        let rest = lines_from(glyphs, bounds, end, y + line.height);
        assert(span_width(glyphs, start, start) == 0);
        assert(span_width(glyphs, start, start + 1) == glyphs[start].advance);
        if !is_line_break(glyphs[start]) {
            lemma_scan_fits(
                glyphs,
                max,
                start,
                start + 1,
                glyphs[start].advance as int,
                if is_blank(glyphs[start]) {
                    start + 1
                } else {
                    start
                },
            );
        }
        lemma_lines_fit(glyphs, bounds, max, end, y + line.height);
        assert(lines == seq![line] + rest);
        assert forall|k: int| 0 <= k < lines.len() implies {
            let line = #[trigger] lines[k];
            span_width(glyphs, line.start, line.end) <= max || span_width(
                glyphs,
                line.start,
                line.end,
            ) == glyphs[line.start].advance
        } by {
            if k > 0 {
                assert(lines[k] == rest[k - 1]);
            } else {
                assert(lines[0] == line);
            }
        }
    }
}

/// Finds where the line that starts at `start` ends.
pub fn find_line_end(glyphs: &Vec<Glyph>, width: Limit, start: usize) -> (end: usize)
    requires
        start < glyphs.len(),
    ensures
        end == line_end(glyphs@, width, start as int),
        start < end <= glyphs.len(),
{
    proof {
        lemma_line_end_bounds(glyphs@, width, start as int);
    }
    let first = glyphs[start];
    if first.ch == '\n' {
        return start + 1;
    }
    let mut at: usize = start + 1;
    let mut brk: usize = if first.ch == ' ' || first.ch == '\t' {
        start + 1
    } else {
        start
    };
    let mut pen: u64 = first.advance as u64;
    let ghost mut total: int = first.advance as int;
    while at < glyphs.len()
        invariant
            start < at <= glyphs.len(),
            start <= brk <= at,
            line_end(glyphs@, width, start as int) == scan(
                glyphs@,
                width,
                start as int,
                at as int,
                total,
                brk as int,
            ),
            width is Finite ==> pen == total,
            pen <= u32::MAX,
        decreases glyphs.len() - at,
    {
        let glyph = glyphs[at];
        if glyph.ch == '\n' {
            return at + 1;
        }
        let over = match width {
            Limit::Finite(max) => pen + glyph.advance as u64 > max as u64,
            Limit::Infinite => false,
        };
        if over {
            if brk > start {
                return brk;
            } else {
                return at;
            }
        }
        match width {
            Limit::Finite(_) => {
                pen = pen + glyph.advance as u64;
            },
            Limit::Infinite => {},
        }
        proof {
            total = total + glyph.advance;
        }
        if glyph.ch == ' ' || glyph.ch == '\t' {
            brk = at + 1;
        }
        at += 1;
    }
    glyphs.len()
}

/// The width and the height of the glyphs from `start` up to `end`.
pub fn measure_span(glyphs: &Vec<Glyph>, start: usize, end: usize) -> (size: (u32, u32))
    requires
        start <= end <= glyphs.len(),
    ensures
        size.0 == clamp32(span_width(glyphs@, start as int, end as int)),
        size.1 == span_height(glyphs@, start as int, end as int),
{
    let mut width: u32 = 0;
    let mut height: u32 = 0;
    let mut at: usize = start;
    while at < end
        invariant
            start <= at <= end <= glyphs.len(),
            width == clamp32(span_width(glyphs@, start as int, at as int)),
            height == span_height(glyphs@, start as int, at as int),
            span_width(glyphs@, start as int, at as int) >= 0,
        decreases end - at,
    {
        let glyph = glyphs[at];
        width = width.saturating_add(glyph.advance);
        if glyph.height > height {
            height = glyph.height;
        }
        at += 1;
    }
    (width, height)
}

/// Computes [`align_offset`].
pub fn offset_for(align: Align, box_width: u32, line_width: u32) -> (x: u32)
    ensures
        x == align_offset(align, box_width, line_width),
{
    if line_width >= box_width {
        0
    } else {
        match align {
            Align::Left => 0,
            Align::Center => (box_width - line_width) / 2,
            Align::Right => box_width - line_width,
        }
    }
}

/// Lays out `glyphs` in a box of `bounds` with alignment `align`.
pub fn layout_glyphs(glyphs: &Vec<Glyph>, bounds: Bounds, align: Align) -> (layout: Layout)
    ensures
        layout@ == spec_layout(glyphs@, bounds, align),
{
    let mut lines: Vec<Line> = Vec::new();
    let mut start: usize = 0;
    let mut below: u64 = 0;
    let mut width: u32 = 0;
    let ghost mut y: int = 0;
    assert(line_views(lines@) =~= Seq::<LineView>::empty());
    loop
        invariant
            start <= glyphs.len(),
            y >= 0,
            y <= u64::MAX ==> below == y,
            y > u64::MAX ==> below == u64::MAX,
            y == stacked_height(line_views(lines@)),
            width == widest(line_views(lines@)),
            lines_from(glyphs@, bounds, 0, 0) == line_views(lines@) + lines_from(
                glyphs@,
                bounds,
                start as int,
                y,
            ),
            forall|k: int| 0 <= k < lines@.len() ==> (#[trigger] lines@[k]).x == 0,
        ensures
            lines_from(glyphs@, bounds, 0, 0) == line_views(lines@),
            width == widest(line_views(lines@)),
            y == stacked_height(line_views(lines@)),
            y >= 0,
            y <= u64::MAX ==> below == y,
            y > u64::MAX ==> below == u64::MAX,
            forall|k: int| 0 <= k < lines@.len() ==> (#[trigger] lines@[k]).x == 0,
        decreases glyphs.len() - start,
    {
        let full = match bounds.height {
            Limit::Finite(max) => below > max as u64,
            Limit::Infinite => false,
        };
        if start >= glyphs.len() || full {
            assert(lines_from(glyphs@, bounds, start as int, y) == Seq::<LineView>::empty());
            assert(line_views(lines@) + Seq::<LineView>::empty() =~= line_views(lines@));
            break;
        }
        let end = find_line_end(glyphs, bounds.width, start);
        let size = measure_span(glyphs, start, end);
        let top: u32 = if below > 0xFFFF_FFFF {
            u32::MAX
        } else {
            below as u32
        };
        let line = Line { start, end, width: size.0, height: size.1, x: 0, y: top };
        proof {
            let before = line_views(lines@);
            let rest = lines_from(glyphs@, bounds, end as int, y + line@.height);
            assert(line@ == raw_line(glyphs@, start as int, end as int, y));
            assert(lines_from(glyphs@, bounds, start as int, y) == seq![line@] + rest);
            assert(before + (seq![line@] + rest) =~= before.push(line@) + rest);
            assert(line_views(lines@.push(line)) =~= before.push(line@));
            assert(before.push(line@).drop_last() =~= before);
        }
        lines.push(line);
        if size.0 > width {
            width = size.0;
        }
        below = below.saturating_add(size.1 as u64);
        proof {
            y = y + size.1;
        }
        start = end;
    }
    let height: u32 = if below > 0xFFFF_FFFF {
        u32::MAX
    } else {
        below as u32
    };
    let box_width = match bounds.width {
        Limit::Finite(max) => max,
        Limit::Infinite => width,
    };
    let ghost raw = line_views(lines@);
    let mut k: usize = 0;
    while k < lines.len()
        invariant
            k <= lines.len(),
            lines@.len() == raw.len(),
            forall|j: int| 0 <= j < k ==> (#[trigger] lines@[j])@ == aligned(raw, align, box_width)[j],
            forall|j: int| k <= j < lines@.len() ==> (#[trigger] lines@[j])@ == raw[j],
        decreases lines.len() - k,
    {
        let line = lines[k];
        let moved = Line {
            start: line.start,
            end: line.end,
            width: line.width,
            height: line.height,
            x: offset_for(align, box_width, line.width),
            y: line.y,
        };
        lines.set(k, moved);
        k += 1;
    }
    let layout = Layout { lines, width, height };
    assert(layout@.lines =~= aligned(raw, align, box_width));
    layout
}

} // verus!
