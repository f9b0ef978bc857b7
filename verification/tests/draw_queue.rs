use gamekit::conf::Conf;
use gamekit::context::Context;
use gamekit::draw::{DrawCall, PlacedGlyph, Style};
use gamekit::fonts::FontHandle;
use gamekit::geometry::{Align, Bounds, Color, DrawParam, Limit, Point, Scale};
use gamekit::queue::{batch_calls, group_runs, DrawQueue, StyledGlyph};
use gamekit::text::{TextBatch, TextFragment};

fn ctx() -> Context {
    Context::from_conf(&Conf::new())
}

fn style(color: Color) -> Style {
    Style { font: FontHandle::builtin(), scale: Scale::uniform(16), color }
}

fn red() -> Color {
    Color::new(255, 0, 0, 255)
}

#[test]
fn flushing_an_empty_queue_submits_nothing() {
    let mut ctx = ctx();
    let mut queue = DrawQueue::new();
    assert_eq!(queue.len(), 0);
    queue.draw_queued(&mut ctx, DrawParam::new());
    assert_eq!(ctx.pending_draw_calls(), 0);
    assert_eq!(queue.len(), 0);
    assert!(ctx.take_draw_calls().is_empty());
}

#[test]
fn queueing_draws_nothing_until_the_flush() {
    let mut ctx = ctx();
    let text = TextBatch::new(TextFragment::new("hi"));
    let mut queue = DrawQueue::new();
    queue.queue(&text, Point::new(1, 2), None);
    queue.queue(&text, Point::new(3, 4), Some(red()));
    assert_eq!(queue.len(), 2);
    assert_eq!(ctx.pending_draw_calls(), 0);
    queue.draw_queued(&mut ctx, DrawParam::new().dest(Point::new(100, 200)).rotation(7));
    assert_eq!(queue.len(), 0);
    assert_eq!(ctx.pending_draw_calls(), 2);
    let calls = ctx.take_draw_calls();
    assert_eq!(ctx.pending_draw_calls(), 0);
    assert_eq!(
        calls,
        vec![
            DrawCall {
                style: style(Color::white()),
                rotation: 7,
                zoom: Scale::uniform(1000),
                glyphs: vec![
                    PlacedGlyph { ch: 'h', x: 101, y: 202 },
                    PlacedGlyph { ch: 'i', x: 117, y: 202 },
                ],
            },
            DrawCall {
                style: style(red()),
                rotation: 7,
                zoom: Scale::uniform(1000),
                glyphs: vec![
                    PlacedGlyph { ch: 'h', x: 103, y: 204 },
                    PlacedGlyph { ch: 'i', x: 119, y: 204 },
                ],
            },
        ]
    );
    queue.draw_queued(&mut ctx, DrawParam::new());
    assert_eq!(ctx.pending_draw_calls(), 0);
}

#[test]
fn clearing_lets_go_of_everything() {
    let mut ctx = ctx();
    let text = TextBatch::new(TextFragment::new("hi"));
    let mut queue = DrawQueue::new();
    queue.queue(&text, Point::new(0, 0), None);
    queue.clear();
    assert_eq!(queue.len(), 0);
    queue.draw_queued(&mut ctx, DrawParam::new());
    assert_eq!(ctx.pending_draw_calls(), 0);
}

#[test]
fn one_draw_call_per_run_of_one_style() {
    let ctx = ctx();
    let mut text = TextBatch::new_empty();
    text.add_text("ab")
        .add_text("cd")
        .add_fragment(TextFragment::new("ef").with_color(red()))
        .add_fragment(TextFragment::new("").with_scale(Scale::uniform(3)))
        .add_fragment(TextFragment::new("g").with_color(red()))
        .add_text("h");
    let calls = batch_calls(&text, ctx.fonts(), DrawParam::new(), Point::new(0, 0), None);
    let runs: Vec<(Color, String)> = calls
        .iter()
        .map(|c| (c.style.color, c.glyphs.iter().map(|g| g.ch).collect()))
        .collect();
    assert_eq!(
        runs,
        vec![
            (Color::white(), "abcd".to_string()),
            (red(), "efg".to_string()),
            (Color::white(), "h".to_string()),
        ]
    );
    let xs: Vec<i64> = calls.iter().flat_map(|c| c.glyphs.iter().map(|g| g.x)).collect();
    assert_eq!(xs, vec![0, 16, 32, 48, 64, 80, 96, 112]);
    let blue = Color::new(0, 0, 255, 255);
    let all = batch_calls(&text, ctx.fonts(), DrawParam::new(), Point::new(0, 0), Some(blue));
    assert_eq!(all.len(), 1);
    assert_eq!(all[0].style.color, blue);
    assert_eq!(all[0].glyphs.len(), 8);
}

#[test]
fn glyphs_follow_lines_and_alignment() {
    let ctx = ctx();
    let mut text = TextBatch::new(TextFragment::new("aaa bb"));
    text.set_scale(Scale::uniform(10))
        .set_bounds(Bounds { width: Limit::Finite(45), height: Limit::Infinite }, Align::Right);
    let dest = DrawParam::new().dest(Point::new(-1000, 50));
    let calls = batch_calls(&text, ctx.fonts(), dest, Point::new(10, -60), None);
    assert_eq!(calls.len(), 1);
    assert_eq!(
        calls[0].glyphs,
        vec![
            PlacedGlyph { ch: 'a', x: -990 + 5, y: -10 },
            PlacedGlyph { ch: 'a', x: -990 + 15, y: -10 },
            PlacedGlyph { ch: 'a', x: -990 + 25, y: -10 },
            PlacedGlyph { ch: ' ', x: -990 + 35, y: -10 },
            PlacedGlyph { ch: 'b', x: -990 + 25, y: 0 },
            PlacedGlyph { ch: 'b', x: -990 + 35, y: 0 },
        ]
    );
}

#[test]
fn lines_left_out_are_not_drawn() {
    let ctx = ctx();
    let mut text = TextBatch::new(TextFragment::new("a\nb\nc"));
    text.set_bounds(Bounds { width: Limit::Infinite, height: Limit::Finite(16) }, Align::Left);
    let calls = batch_calls(&text, ctx.fonts(), DrawParam::new(), Point::new(0, 0), None);
    let drawn: String = calls.iter().flat_map(|c| c.glyphs.iter().map(|g| g.ch)).collect();
    assert_eq!(drawn, "a\nb\n");
}

#[test]
fn a_cached_layout_draws_the_same() {
    let ctx = ctx();
    let mut text = TextBatch::new(TextFragment::new("one two three four"));
    text.set_bounds(Bounds::new(100, 100), Align::Center);
    let fresh = batch_calls(&text, ctx.fonts(), DrawParam::new(), Point::new(5, 5), None);
    text.width(&ctx);
    let cached = batch_calls(&text, ctx.fonts(), DrawParam::new(), Point::new(5, 5), None);
    assert_eq!(fresh, cached);
    assert_eq!(text.layout_passes(), 1);
}

#[test]
fn extreme_corners_do_not_overflow() {
    let ctx = ctx();
    let mut text = TextBatch::new(TextFragment::new("ab"));
    text.set_scale(Scale::uniform(u32::MAX));
    let dest = DrawParam::new().dest(Point::new(i32::MAX, i32::MIN));
    let calls = batch_calls(&text, ctx.fonts(), dest, Point::new(i32::MAX, i32::MIN), None);
    assert_eq!(
        calls[0].glyphs,
        vec![
            PlacedGlyph { ch: 'a', x: 2 * (i32::MAX as i64), y: 2 * (i32::MIN as i64) },
            PlacedGlyph {
                ch: 'b',
                x: 2 * (i32::MAX as i64) + u32::MAX as i64,
                y: 2 * (i32::MIN as i64),
            },
        ]
    );
}

#[test]
fn grouping_keeps_order() {
    let g = |ch: char| PlacedGlyph { ch, x: 0, y: 0 };
    let w = style(Color::white());
    let r = style(red());
    let items = vec![
        StyledGlyph { style: w, glyph: g('a') },
        StyledGlyph { style: r, glyph: g('b') },
        StyledGlyph { style: r, glyph: g('c') },
        StyledGlyph { style: w, glyph: g('d') },
    ];
    let params = DrawParam::new().rotation(90).zoom(Scale { x: 1, y: 2 });
    let calls = group_runs(&items, params);
    assert_eq!(calls.len(), 3);
    assert_eq!(calls[1].glyphs, vec![g('b'), g('c')]);
    assert!(calls.iter().all(|c| c.rotation == 90 && c.zoom == Scale { x: 1, y: 2 }));
    assert!(group_runs(&Vec::new(), params).is_empty());
}

#[test]
fn context_collects_submissions_in_order() {
    let mut ctx = ctx();
    let call = |ch: char| DrawCall {
        style: style(Color::white()),
        rotation: 0,
        zoom: Scale::uniform(1000),
        glyphs: vec![PlacedGlyph { ch, x: 0, y: 0 }],
    };
    ctx.submit(call('a'));
    ctx.submit_all(vec![call('b'), call('c')]);
    assert_eq!(ctx.pending_draw_calls(), 3);
    assert_eq!(ctx.take_draw_calls(), vec![call('a'), call('b'), call('c')]);
    assert_eq!(ctx.pending_draw_calls(), 0);
}
