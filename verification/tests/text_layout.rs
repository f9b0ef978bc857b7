use gamekit::conf::Conf;
use gamekit::context::Context;
use gamekit::fonts::{builtin_glyph, FontHandle, FontMetrics, Glyph};
use gamekit::geometry::{Align, Bounds, Color, Limit, Scale};
use gamekit::layout::{find_line_end, layout_glyphs, measure_span, offset_for, Layout, Line};
use gamekit::text::{TextBatch, TextFragment};

fn ctx() -> Context {
    Context::from_conf(&Conf::new())
}

fn layout_of(batch: &mut TextBatch, ctx: &Context) -> Layout {
    batch.refresh(ctx.fonts());
    batch.cached_layout(ctx.fonts()).unwrap().clone()
}

fn spans(layout: &Layout) -> Vec<(usize, usize)> {
    layout.lines.iter().map(|l| (l.start, l.end)).collect()
}

fn mono(text: &str, advance: u32, height: u32) -> Vec<Glyph> {
    text.chars()
        .map(|ch| Glyph { ch, advance: if ch == '\n' { 0 } else { advance }, height })
        .collect()
}

#[test]
fn fragments_keep_count_and_order() {
    let mut batch = TextBatch::new_empty();
    assert_eq!(batch.fragments_mut().len(), 0);
    for i in 0..25 {
        batch.add_text(&format!("piece {}", i));
        assert_eq!(batch.fragments_mut().len(), i + 1);
    }
    for i in 0..25 {
        assert_eq!(batch.fragments_mut()[i].text, format!("piece {}", i));
        assert_eq!(batch.fragments()[i].text, format!("piece {}", i));
    }
}

#[test]
fn add_fragment_chains() {
    let mut batch = TextBatch::new(TextFragment::new("a"));
    batch
        .add_fragment(TextFragment::new("b").with_color(Color::new(1, 2, 3, 4)))
        .add_text("c")
        .add_fragments(vec![TextFragment::new("d"), TextFragment::new("e")]);
    let texts: Vec<&str> = batch.fragments().iter().map(|f| f.text.as_str()).collect();
    assert_eq!(texts, vec!["a", "b", "c", "d", "e"]);
    assert_eq!(batch.fragments()[1].color, Some(Color::new(1, 2, 3, 4)));
    assert_eq!(batch.fragments()[0].color, None);
}

#[test]
fn fragment_builders_compose_left_to_right() {
    let f = TextFragment::new("x")
        .with_color(Color::new(1, 1, 1, 1))
        .with_scale(Scale::uniform(10))
        .with_font(FontHandle { id: 3 })
        .with_color(Color::new(9, 8, 7, 6))
        .with_scale(Scale { x: 4, y: 5 });
    assert_eq!(f.text, "x");
    assert_eq!(f.color, Some(Color::new(9, 8, 7, 6)));
    assert_eq!(f.font, Some(FontHandle { id: 3 }));
    assert_eq!(f.scale, Some(Scale { x: 4, y: 5 }));
    let plain = TextFragment::new("y");
    assert_eq!((plain.color, plain.font, plain.scale), (None, None, None));
    assert_eq!(TextFragment::default().text, "");
}

#[test]
fn new_batch_defaults() {
    let batch = TextBatch::new_empty();
    assert_eq!(batch.default_font(), FontHandle::builtin());
    assert_eq!(batch.default_font(), FontHandle::default());
    assert_eq!(batch.default_scale(), Scale::uniform(16));
    assert_eq!(batch.bounds(), None);
    assert_eq!(batch.effective_bounds(), Bounds::unbounded());
    assert_eq!(batch.alignment(), Align::Left);
    assert_eq!(batch.layout_passes(), 0);
}

#[test]
fn empty_batch_measures_nothing() {
    let ctx = ctx();
    let mut batch = TextBatch::new_empty();
    assert_eq!(batch.dimensions(&ctx), (0, 0));
    assert!(layout_of(&mut batch, &ctx).lines.is_empty());
}

#[test]
fn single_line_measure() {
    let ctx = ctx();
    let mut batch = TextBatch::new(TextFragment::new("Hello"));
    assert_eq!(batch.width(&ctx), 5 * 16);
    assert_eq!(batch.height(&ctx), 16);
}

#[test]
fn wraps_before_the_word_that_does_not_fit() {
    let ctx = ctx();
    let mut batch = TextBatch::new_empty();
    batch
        .add_text("AAAAAAAAAA")
        .add_text(" ")
        .add_text("BBBBBBBBBB")
        .set_scale(Scale::uniform(15))
        .set_bounds(Bounds { width: Limit::Finite(200), height: Limit::Infinite }, Align::Left);
    let layout = layout_of(&mut batch, &ctx);
    assert_eq!(layout.lines.len(), 2);
    assert_eq!(spans(&layout), vec![(0, 11), (11, 21)]);
    assert_eq!(layout.lines[0].width, 165);
    assert_eq!(layout.lines[1].width, 150);
    assert_eq!(layout.lines[1].y, 15);
    assert_eq!(batch.width(&ctx), 165);
    assert_eq!(batch.height(&ctx), 30);
}

#[test]
fn infinite_bounds_are_like_no_bounds() {
    let ctx = ctx();
    let text = "one two three\nfour five six seven eight nine ten\n\neleven";
    let mut bare = TextBatch::new(TextFragment::new(text));
    let mut boxed = TextBatch::new(TextFragment::new(text));
    boxed.set_bounds(Bounds::unbounded(), Align::Left);
    let a = layout_of(&mut bare, &ctx);
    let b = layout_of(&mut boxed, &ctx);
    assert_eq!(a, b);
    assert_eq!(spans(&a), vec![(0, 14), (14, 49), (49, 50), (50, 56)]);
    assert_eq!(a.width, 34 * 16);
    assert_eq!(a.height, 4 * 16);
}

#[test]
fn measuring_twice_lays_out_once() {
    let ctx = ctx();
    let mut batch = TextBatch::new(TextFragment::new("some words to measure"));
    batch.set_bounds(Bounds::new(100, 1000), Align::Center);
    assert_eq!(batch.layout_passes(), 0);
    let w1 = batch.width(&ctx);
    let h1 = batch.height(&ctx);
    assert_eq!(batch.layout_passes(), 1);
    let w2 = batch.width(&ctx);
    let h2 = batch.height(&ctx);
    assert_eq!((w1, h1), (w2, h2));
    assert_eq!(batch.dimensions(&ctx), (w1, h1));
    assert_eq!(batch.layout_passes(), 1);
}

#[test]
fn changing_a_fragment_is_never_stale() {
    let ctx = ctx();
    let mut batch = TextBatch::new_empty();
    batch.add_text("abc").add_text("def");
    assert_eq!(batch.width(&ctx), 6 * 16);
    batch.fragments_mut()[1].text = "defgh".to_string();
    assert_eq!(batch.width(&ctx), 8 * 16);
    assert_eq!(batch.layout_passes(), 2);
    batch.fragments_mut()[0].scale = Some(Scale::uniform(10));
    assert_eq!(batch.width(&ctx), 3 * 10 + 5 * 16);
    assert_eq!(batch.height(&ctx), 16);
    batch.fragments_mut().pop();
    assert_eq!(batch.dimensions(&ctx), (30, 10));
    assert_eq!(batch.layout_passes(), 4);
}

#[test]
fn defaults_bind_late() {
    let mut ctx = ctx();
    let wide = ctx
        .register_font(FontMetrics::new(1000, 1200, 500).with_advance('i', 250))
        .unwrap();
    let mut batch = TextBatch::new_empty();
    batch
        .add_text("iii")
        .add_fragment(TextFragment::new("mm").with_scale(Scale::uniform(20)))
        .add_fragment(TextFragment::new("i").with_font(FontHandle::builtin()));
    assert_eq!(batch.dimensions(&ctx), (3 * 16 + 2 * 20 + 16, 20));
    batch.set_font(wide, Scale::uniform(40));
    // "iii" at 40: 3 * 250 * 40 / 1000; "mm" keeps scale 20: 2 * 500 * 20 / 1000;
    // the last fragment keeps the built-in font and takes scale 40.
    assert_eq!(batch.width(&ctx), 30 + 20 + 40);
    assert_eq!(batch.height(&ctx), 1200 * 40 / 1000);
    batch.set_scale(Scale { x: 8, y: 100 });
    assert_eq!(batch.width(&ctx), 6 + 20 + 8);
    assert_eq!(batch.height(&ctx), 120);
}

#[test]
fn new_fonts_in_the_context_are_seen() {
    let mut ctx = ctx();
    let mut batch = TextBatch::new(TextFragment::new("ab").with_font(FontHandle { id: 1 }));
    assert_eq!(batch.width(&ctx), 32);
    ctx.register_font(FontMetrics::new(2, 2, 1)).unwrap();
    assert_eq!(batch.width(&ctx), 16);
    assert_eq!(batch.layout_passes(), 2);
    assert_eq!(batch.width(&ctx), 16);
    assert_eq!(batch.layout_passes(), 2);
}

#[test]
fn a_word_wider_than_the_box_is_cut() {
    let glyphs = mono("abcdefgh", 10, 12);
    let bounds = Bounds { width: Limit::Finite(35), height: Limit::Infinite };
    let layout = layout_glyphs(&glyphs, bounds, Align::Left);
    assert_eq!(spans(&layout), vec![(0, 3), (3, 6), (6, 8)]);
    assert_eq!(layout.width, 30);
    assert_eq!(layout.height, 36);
}

#[test]
fn a_glyph_wider_than_the_box_gets_its_own_line() {
    let glyphs = mono("ab c", 50, 7);
    let bounds = Bounds { width: Limit::Finite(20), height: Limit::Infinite };
    let layout = layout_glyphs(&glyphs, bounds, Align::Right);
    assert_eq!(spans(&layout), vec![(0, 1), (1, 2), (2, 3), (3, 4)]);
    assert_eq!(layout.width, 50);
    assert!(layout.lines.iter().all(|l| l.x == 0));
}

#[test]
fn breaks_after_the_last_blank() {
    let glyphs = mono("aa bb cc dd", 10, 10);
    let bounds = Bounds { width: Limit::Finite(65), height: Limit::Infinite };
    let layout = layout_glyphs(&glyphs, bounds, Align::Left);
    assert_eq!(spans(&layout), vec![(0, 6), (6, 11)]);
    assert_eq!(layout.lines[0].width, 60);
    assert_eq!(layout.lines[1].width, 50);
    assert_eq!(find_line_end(&glyphs, Limit::Finite(65), 0), 6);
    assert_eq!(find_line_end(&glyphs, Limit::Finite(65), 6), 11);
    assert_eq!(find_line_end(&glyphs, Limit::Infinite, 0), 11);
    assert_eq!(find_line_end(&glyphs, Limit::Finite(0), 3), 4);
}

#[test]
fn line_breaks_end_lines() {
    let glyphs = mono("ab\n\ncd\n", 10, 10);
    let layout = layout_glyphs(&glyphs, Bounds::unbounded(), Align::Left);
    assert_eq!(spans(&layout), vec![(0, 3), (3, 4), (4, 7)]);
    assert_eq!(layout.lines[1].width, 0);
    assert_eq!(layout.lines[1].height, 10);
    assert_eq!(layout.height, 30);
    assert_eq!(layout.width, 20);
}

#[test]
fn lines_below_the_box_are_left_out() {
    let glyphs = mono("a\nb\nc\nd\ne", 10, 10);
    let keep = |max: u32| {
        let bounds = Bounds { width: Limit::Infinite, height: Limit::Finite(max) };
        layout_glyphs(&glyphs, bounds, Align::Left)
    };
    assert_eq!(keep(0).lines.len(), 1);
    assert_eq!(keep(9).lines.len(), 1);
    assert_eq!(keep(10).lines.len(), 2);
    assert_eq!(keep(25).lines.len(), 3);
    assert_eq!(keep(25).height, 30);
    assert_eq!(keep(1000).lines.len(), 5);
    assert_eq!(keep(1000).height, 50);
}

#[test]
fn alignment_with_a_finite_width() {
    let glyphs = mono("aaaa\nbb", 10, 10);
    let bounds = Bounds { width: Limit::Finite(100), height: Limit::Infinite };
    let left = layout_glyphs(&glyphs, bounds, Align::Left);
    let center = layout_glyphs(&glyphs, bounds, Align::Center);
    let right = layout_glyphs(&glyphs, bounds, Align::Right);
    assert_eq!(left.lines.iter().map(|l| l.x).collect::<Vec<_>>(), vec![0, 0]);
    assert_eq!(center.lines.iter().map(|l| l.x).collect::<Vec<_>>(), vec![30, 40]);
    assert_eq!(right.lines.iter().map(|l| l.x).collect::<Vec<_>>(), vec![60, 80]);
    assert_eq!(
        right.lines[1],
        Line { start: 5, end: 7, width: 20, height: 10, x: 80, y: 10 }
    );
}

#[test]
fn alignment_without_a_width_uses_the_widest_line() {
    let glyphs = mono("aaaa\nbb\nc", 10, 10);
    let center = layout_glyphs(&glyphs, Bounds::unbounded(), Align::Center);
    let right = layout_glyphs(&glyphs, Bounds::unbounded(), Align::Right);
    assert_eq!(center.lines.iter().map(|l| l.x).collect::<Vec<_>>(), vec![0, 10, 15]);
    assert_eq!(right.lines.iter().map(|l| l.x).collect::<Vec<_>>(), vec![0, 20, 30]);
    assert_eq!(offset_for(Align::Center, 41, 10), 15);
    assert_eq!(offset_for(Align::Right, 10, 41), 0);
    assert_eq!(offset_for(Align::Left, 100, 1), 0);
}

#[test]
fn measures_are_capped() {
    let glyphs = mono("abc", u32::MAX, u32::MAX);
    assert_eq!(measure_span(&glyphs, 0, 3), (u32::MAX, u32::MAX));
    assert_eq!(measure_span(&glyphs, 1, 1), (0, 0));
    let stacked = mono("a\nb\nc", 1, u32::MAX);
    let layout = layout_glyphs(&stacked, Bounds::unbounded(), Align::Left);
    assert_eq!(layout.height, u32::MAX);
    assert_eq!(layout.lines[2].y, u32::MAX);
    assert_eq!(layout.lines[1].y, u32::MAX);
    assert_eq!(layout.lines.len(), 3);
}

#[test]
fn resolve_gives_one_glyph_and_style_per_char() {
    let ctx = ctx();
    let mut batch = TextBatch::new_empty();
    batch.add_text("a\n").add_fragment(
        TextFragment::new("é").with_color(Color::new(1, 2, 3, 4)).with_scale(Scale { x: 3, y: 9 }),
    );
    let (glyphs, styles) = batch.resolve(ctx.fonts());
    assert_eq!(
        glyphs,
        vec![
            Glyph { ch: 'a', advance: 16, height: 16 },
            Glyph { ch: '\n', advance: 0, height: 16 },
            Glyph { ch: 'é', advance: 3, height: 9 },
        ]
    );
    assert_eq!(styles.len(), 3);
    assert_eq!(styles[0].color, Color::white());
    assert_eq!(styles[2].color, Color::new(1, 2, 3, 4));
    assert_eq!(styles[2].scale, Scale { x: 3, y: 9 });
    assert_eq!(builtin_glyph(Scale { x: 3, y: 9 }, 'é'), glyphs[2]);
}
