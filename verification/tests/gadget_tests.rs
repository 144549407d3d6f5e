use trip_or_treat::buffer::Buffer;
use trip_or_treat::color::Rgb;
use trip_or_treat::gadget::{
    paint_all, Gadget, HorizontalGadget, RenderRect, ScrollGadget, TextGadget, TextRun,
};
use trip_or_treat::glyph::{GlyphSample, Orientation};

fn leaf(text: &str, width: u32, height: u32) -> Gadget {
    Gadget::Text(TextGadget::new(text.to_string(), width, height, Rgb::white(), 32))
}

fn rect(x: u32, y: u32, width: u32, height: u32) -> RenderRect {
    RenderRect { x, y, width, height }
}

/// A stand-in rasteriser: full coverage at every pixel of the run's region
/// for a run that holds text, nothing for an empty one.
fn solid(run: &TextRun) -> Vec<GlyphSample> {
    let mut samples = Vec::new();
    if run.text.is_empty() {
        return samples;
    }
    for y in run.rect.y..run.rect.y + run.rect.height {
        for x in run.rect.x..run.rect.x + run.rect.width {
            samples.push(GlyphSample { x, y, min_x: 0, min_y: 0, coverage: 0xFFFF });
        }
    }
    samples
}

fn summary(runs: &Vec<TextRun>) -> Vec<(String, RenderRect)> {
    runs.iter().map(|r| (r.text.clone(), r.rect)).collect()
}

#[test]
fn rect_contains_its_points_only() {
    let r = rect(2, 3, 4, 5);
    assert!(r.contains(2, 3));
    assert!(r.contains(5, 7));
    assert!(!r.contains(6, 3));
    assert!(!r.contains(2, 8));
    assert!(!r.contains(1, 3));
    assert!(!r.contains(-1, -1));
    assert!(!rect(u32::MAX, 0, u32::MAX, 1).contains(0, 0));
    assert!(rect(u32::MAX, 0, u32::MAX, 1).contains(u32::MAX as i64 + 5, 0));
}

#[test]
fn text_leaf_paints_white_then_black() {
    let mut buffer: Buffer<[u8; 3]> = Buffer::new(10, 1);
    let mut a = TextGadget::new("A".to_string(), 10, 1, Rgb::white(), 1);
    assert!(a.dirty());
    let mut runs = Vec::new();
    a.render(rect(0, 0, 10, 1), &mut runs);
    assert!(!a.dirty());
    assert_eq!(runs.len(), 1);
    assert_eq!(runs[0].text, "A");
    assert_eq!(runs[0].size, 1);
    assert_eq!(runs[0].color, Rgb::white());
    runs[0].paint(&mut buffer, &solid(&runs[0]), Orientation::Upright);
    let all = buffer.pixels();
    assert_eq!(all.len(), 10);
    for (_, _, p) in all {
        assert_eq!(p, [255, 255, 255]);
    }

    a.text("".to_string());
    assert!(a.dirty());
    let mut runs = Vec::new();
    a.render(rect(0, 0, 10, 1), &mut runs);
    assert_eq!(runs.len(), 1);
    assert_eq!(runs[0].text, "");
    runs[0].paint(&mut buffer, &solid(&runs[0]), Orientation::Upright);
    for (_, _, p) in buffer.pixels() {
        assert_eq!(p, [0, 0, 0]);
    }
}

#[test]
fn text_leaf_is_dirty_exactly_when_its_text_changed() {
    let mut a = TextGadget::new("12:00".to_string(), 7, 9, Rgb::white(), 32);
    assert_eq!(a.width(), 7);
    assert_eq!(a.height(), 9);
    let mut runs = Vec::new();
    a.render(rect(0, 0, 7, 9), &mut runs);
    assert!(!a.dirty());
    a.text("12:00".to_string());
    assert!(!a.dirty());
    a.text("12:01".to_string());
    assert!(a.dirty());
    a.text("12:01".to_string());
    assert!(a.dirty());
}

#[test]
fn paint_clips_to_the_region() {
    let mut buffer: Buffer<[u8; 3]> = Buffer::new(4, 2);
    for y in 0..2 {
        for x in 0..4 {
            buffer.set_pixel(x, y, Rgb::new(0xFFFF, 0, 0));
        }
    }
    let run = TextRun { rect: rect(1, 0, 2, 1), text: "x".to_string(), size: 8, color: Rgb::white() };
    let mut samples = Vec::new();
    for y in 0..2 {
        for x in 0..4 {
            samples.push(GlyphSample { x, y, min_x: 0, min_y: 0, coverage: 0xFFFF });
        }
    }
    run.paint(&mut buffer, &samples, Orientation::Upright);
    for (x, y, p) in buffer.pixels() {
        let inside = y == 0 && (x == 1 || x == 2);
        assert_eq!(p, if inside { [255, 255, 255] } else { [255, 0, 0] });
    }
}

#[test]
fn horizontal_container_lays_children_side_by_side() {
    let mut row = HorizontalGadget::new(10, 3);
    row.children.push(leaf("a", 4, 3));
    row.children.push(leaf("b", 6, 3));
    let mut runs = Vec::new();
    row.render(rect(0, 0, 10, 3), &mut runs);
    assert_eq!(
        summary(&runs),
        vec![("a".to_string(), rect(0, 0, 4, 3)), ("b".to_string(), rect(4, 0, 6, 3))]
    );
}

#[test]
fn horizontal_container_offsets_from_the_rect_origin() {
    let mut row = HorizontalGadget::new(10, 3);
    row.children.push(leaf("a", 4, 1));
    row.children.push(leaf("b", 6, 2));
    row.children.push(leaf("c", 1, 2));
    let mut runs = Vec::new();
    row.render(rect(5, 7, 10, 3), &mut runs);
    assert_eq!(
        summary(&runs),
        vec![
            ("a".to_string(), rect(5, 7, 4, 3)),
            ("b".to_string(), rect(9, 7, 6, 3)),
            ("c".to_string(), rect(15, 7, 1, 3)),
        ]
    );
}

#[test]
fn offsets_stop_at_the_end_of_the_coordinate_range() {
    let mut row = HorizontalGadget::new(10, 3);
    row.children.push(leaf("a", u32::MAX, 1));
    row.children.push(leaf("b", 6, 2));
    row.children.push(leaf("c", 1, 2));
    let mut runs = Vec::new();
    row.render(rect(5, 0, 10, 3), &mut runs);
    assert_eq!(
        summary(&runs),
        vec![
            ("a".to_string(), rect(5, 0, u32::MAX, 3)),
            ("b".to_string(), rect(u32::MAX, 0, 6, 3)),
            ("c".to_string(), rect(u32::MAX, 0, 1, 3)),
        ]
    );
}

#[test]
fn scroll_container_shows_children_from_the_index_on() {
    let mut list = ScrollGadget::new(8, 4);
    for name in ["0", "1", "2", "3", "4"] {
        list.children.push(leaf(name, 8, 2));
    }
    list.scroll(3);
    let mut runs = Vec::new();
    list.render(rect(0, 0, 8, 4), &mut runs);
    assert_eq!(
        summary(&runs),
        vec![("3".to_string(), rect(0, 0, 8, 2)), ("4".to_string(), rect(0, 2, 8, 2))]
    );
}

#[test]
fn scroll_container_leaves_hidden_children_alone() {
    let mut list = ScrollGadget::new(8, 4);
    for name in ["0", "1", "2", "3", "4"] {
        list.children.push(leaf(name, 8, 2));
    }
    list.scroll(3);
    let mut runs = Vec::new();
    list.render(rect(0, 0, 8, 4), &mut runs);
    assert!(!list.dirty());
    let states: Vec<bool> = list.children.iter().map(|c| c.dirty()).collect();
    assert_eq!(states, vec![true, true, true, false, false]);
}

#[test]
fn scroll_past_the_end_shows_nothing() {
    let mut list = ScrollGadget::new(8, 4);
    list.children.push(leaf("0", 8, 2));
    list.scroll(7);
    assert!(list.dirty());
    let mut runs = Vec::new();
    list.render(rect(0, 0, 8, 4), &mut runs);
    assert!(runs.is_empty());
    assert!(!list.dirty());
    assert!(list.children[0].dirty());
}

#[test]
fn fresh_containers_report_dirty() {
    let row = HorizontalGadget::new(10, 3);
    let list = ScrollGadget::new(10, 3);
    assert!(row.dirty());
    assert!(list.dirty());
    assert_eq!((row.width(), row.height()), (10, 3));
    assert_eq!((list.width(), list.height()), (10, 3));
    assert_eq!(list.scroll, 0);
    assert!(Gadget::Horizontal(row).dirty());
    assert!(Gadget::Scroll(list).dirty());
}

fn two_level_tree() -> ScrollGadget {
    let mut inner = ScrollGadget::new(8, 4);
    inner.children.push(leaf("x", 8, 2));
    inner.children.push(leaf("y", 8, 2));
    let mut outer = ScrollGadget::new(8, 6);
    outer.children.push(leaf("clock", 8, 2));
    outer.children.push(Gadget::Scroll(inner));
    outer
}

#[test]
fn render_cleans_the_tree_and_mutation_dirties_every_ancestor() {
    let mut outer = two_level_tree();
    assert!(outer.dirty());
    let mut runs = Vec::new();
    outer.render(rect(0, 0, 8, 6), &mut runs);
    assert_eq!(
        summary(&runs),
        vec![
            ("clock".to_string(), rect(0, 0, 8, 2)),
            ("x".to_string(), rect(0, 2, 8, 2)),
            ("y".to_string(), rect(0, 4, 8, 2)),
        ]
    );
    assert!(!outer.dirty());
    assert!(outer.children.iter().all(|c| !c.dirty()));

    if let Gadget::Scroll(inner) = &mut outer.children[1] {
        if let Gadget::Text(y) = &mut inner.children[1] {
            y.text("z".to_string());
            assert!(y.dirty());
        }
        assert!(inner.dirty());
    }
    assert!(outer.children[1].dirty());
    assert!(!outer.children[0].dirty());
    assert!(outer.dirty());

    let mut runs = Vec::new();
    outer.render(rect(0, 0, 8, 6), &mut runs);
    // a dirty container renders every visible child, clean or not
    assert_eq!(
        summary(&runs),
        vec![
            ("clock".to_string(), rect(0, 0, 8, 2)),
            ("x".to_string(), rect(0, 2, 8, 2)),
            ("z".to_string(), rect(0, 4, 8, 2)),
        ]
    );
    assert!(!outer.dirty());
}

#[test]
fn a_dirty_parent_renders_its_clean_children() {
    let mut row = HorizontalGadget::new(10, 3);
    row.children.push(leaf("a", 4, 3));
    row.children.push(leaf("b", 6, 3));
    let mut runs = Vec::new();
    row.render(rect(0, 0, 10, 3), &mut runs);
    row.dirty = true;
    let mut runs = Vec::new();
    row.render(rect(0, 0, 10, 3), &mut runs);
    assert_eq!(runs.len(), 2);
}

#[test]
fn a_clean_child_container_does_not_force_its_own_children() {
    let mut outer = two_level_tree();
    let mut runs = Vec::new();
    outer.render(rect(0, 0, 8, 6), &mut runs);
    outer.scroll(0);
    let mut runs = Vec::new();
    outer.render(rect(0, 0, 8, 6), &mut runs);
    assert_eq!(summary(&runs), vec![("clock".to_string(), rect(0, 0, 8, 2))]);
}

#[test]
fn rendering_a_clean_tree_changes_no_pixel() {
    let mut buffer: Buffer<[u8; 3]> = Buffer::new(8, 6);
    let mut outer = two_level_tree();
    let mut runs = Vec::new();
    outer.render(rect(0, 0, 8, 6), &mut runs);
    for run in &runs {
        run.paint(&mut buffer, &solid(run), Orientation::Upright);
    }
    let first = buffer.pixels();
    assert!(first.iter().all(|p| p.2 == [255, 255, 255]));

    let mut runs = Vec::new();
    outer.render(rect(0, 0, 8, 6), &mut runs);
    assert!(runs.is_empty());
    for run in &runs {
        run.paint(&mut buffer, &solid(run), Orientation::Upright);
    }
    assert_eq!(buffer.pixels(), first);
}

#[test]
fn render_appends_to_the_runs_it_is_given() {
    let mut node = leaf("b", 2, 2);
    let mut runs = vec![TextRun { rect: rect(9, 9, 9, 9), text: "a".to_string(), size: 1, color: Rgb::black() }];
    node.render(rect(0, 0, 2, 2), &mut runs);
    assert_eq!(
        summary(&runs),
        vec![("a".to_string(), rect(9, 9, 9, 9)), ("b".to_string(), rect(0, 0, 2, 2))]
    );
    assert_eq!((node.width(), node.height()), (2, 2));
}

#[test]
fn painting_a_run_twice_changes_no_pixel() {
    let mut buffer: Buffer<u16> = Buffer::new(5, 4);
    for y in 0..4 {
        for x in 0..5 {
            buffer.set_pixel(x, y, Rgb::new(0x1234, 0x8000, 0xFFFF));
        }
    }
    let run = TextRun { rect: rect(1, 1, 3, 2), text: "x".to_string(), size: 8, color: Rgb::new(0xFFFF, 0x4000, 0) };
    let samples = vec![
        GlyphSample { x: 0, y: 0, min_x: 1, min_y: 1, coverage: 0x8000 },
        GlyphSample { x: 1, y: 0, min_x: 1, min_y: 1, coverage: 0x3000 },
        GlyphSample { x: 1, y: 0, min_x: 1, min_y: 1, coverage: 0xC000 },
        GlyphSample { x: 4, y: 4, min_x: 0, min_y: 0, coverage: 0xFFFF },
    ];
    run.paint(&mut buffer, &samples, Orientation::Upright);
    let once = buffer.pixels();
    assert_eq!(once[0].2, 0x13FF);
    assert_eq!(once[6].2, 0x78E0);
    assert_eq!(once[7].2, 0xC180);
    assert_eq!(once[8].2, 0);
    run.paint(&mut buffer, &samples, Orientation::Upright);
    assert_eq!(buffer.pixels(), once);
}

#[test]
fn gadget_dispatches_to_its_variant() {
    let mut row = HorizontalGadget::new(10, 3);
    row.children.push(leaf("a", 4, 3));
    let mut list = ScrollGadget::new(7, 5);
    list.children.push(Gadget::Horizontal(row));
    let mut node = Gadget::Scroll(list);
    assert_eq!((node.width(), node.height()), (7, 5));
    assert!(node.dirty());
    let mut runs = Vec::new();
    node.render(rect(2, 3, 7, 5), &mut runs);
    assert_eq!(summary(&runs), vec![("a".to_string(), rect(2, 3, 4, 3))]);
    assert!(!node.dirty());
    if let Gadget::Scroll(list) = &node {
        assert_eq!((list.children[0].width(), list.children[0].height()), (10, 3));
    }
}

#[test]
fn paint_all_paints_the_runs_in_order() {
    let mut buffer: Buffer<[u8; 3]> = Buffer::new(4, 1);
    let red = TextRun { rect: rect(0, 0, 3, 1), text: "r".to_string(), size: 8, color: Rgb::new(0xFFFF, 0, 0) };
    let blue = TextRun { rect: rect(2, 0, 2, 1), text: "b".to_string(), size: 8, color: Rgb::new(0, 0, 0xFFFF) };
    let glyphs = vec![solid(&red), solid(&blue)];
    let runs = vec![red, blue];
    paint_all(&mut buffer, &runs, &glyphs, Orientation::Upright);
    let colors: Vec<[u8; 3]> = buffer.pixels().iter().map(|p| p.2).collect();
    // the second run clears its region before it draws
    assert_eq!(colors, vec![[255, 0, 0], [255, 0, 0], [0, 0, 255], [0, 0, 255]]);
}

#[test]
fn paint_all_stops_where_the_samples_end() {
    let mut buffer: Buffer<[u8; 3]> = Buffer::new(4, 1);
    let red = TextRun { rect: rect(0, 0, 3, 1), text: "r".to_string(), size: 8, color: Rgb::new(0xFFFF, 0, 0) };
    let blue = TextRun { rect: rect(2, 0, 2, 1), text: "b".to_string(), size: 8, color: Rgb::new(0, 0, 0xFFFF) };
    let glyphs = vec![solid(&red)];
    let runs = vec![red, blue];
    paint_all(&mut buffer, &runs, &glyphs, Orientation::Upright);
    let colors: Vec<[u8; 3]> = buffer.pixels().iter().map(|p| p.2).collect();
    assert_eq!(colors, vec![[255, 0, 0], [255, 0, 0], [255, 0, 0], [0, 0, 0]]);
    let before = buffer.pixels();
    paint_all(&mut buffer, &vec![], &glyphs, Orientation::Upright);
    assert_eq!(buffer.pixels(), before);
}

#[test]
fn text_leaf_paints_white_then_black_in_the_packed_encoding() {
    let mut buffer: Buffer<u16> = Buffer::new(10, 1);
    for x in 0..10 {
        buffer.set_pixel(x, 0, Rgb::new(0x1234, 0x8000, 0x00FF));
    }
    let mut a = TextGadget::new("A".to_string(), 10, 1, Rgb::white(), 1);
    let mut runs = Vec::new();
    a.render(rect(0, 0, 10, 1), &mut runs);
    runs[0].paint(&mut buffer, &solid(&runs[0]), Orientation::Upright);
    assert!(!a.dirty());
    for x in 0..10 {
        assert_eq!(buffer.get_pixel(x, 0), Some(Rgb::white()));
    }

    a.text("".to_string());
    let mut runs = Vec::new();
    a.render(rect(0, 0, 10, 1), &mut runs);
    runs[0].paint(&mut buffer, &solid(&runs[0]), Orientation::Upright);
    for x in 0..10 {
        assert_eq!(buffer.get_pixel(x, 0), Some(Rgb::black()));
    }
}
