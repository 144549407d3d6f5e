use trip_or_treat::buffer::Buffer;
use trip_or_treat::color::Rgb;
use trip_or_treat::gadget::RenderRect;
use trip_or_treat::glyph::{GlyphSample, Orientation};

fn sample(x: u32, y: u32, coverage: u16) -> GlyphSample {
    GlyphSample { x, y, min_x: 0, min_y: 0, coverage }
}

#[test]
fn new_buffer_is_black() {
    let b: Buffer<[u8; 3]> = Buffer::new(4, 3);
    assert_eq!(b.width(), 4);
    assert_eq!(b.height(), 3);
    let all = b.pixels();
    assert_eq!(all.len(), 12);
    for (_, _, p) in all {
        assert_eq!(p, [0, 0, 0]);
    }
}

#[test]
fn empty_buffer_has_no_pixels() {
    let b: Buffer<u16> = Buffer::new(0, 7);
    assert_eq!(b.pixels().len(), 0);
    assert_eq!(b.get_pixel(0, 0), None);
}

#[test]
fn set_then_get_in_range() {
    let mut b: Buffer<[u8; 3]> = Buffer::new(4, 3);
    let c = Rgb::new(257 * 10, 257 * 20, 257 * 30);
    b.set_pixel(3, 2, c);
    assert_eq!(b.get_pixel(3, 2), Some(c));
    assert_eq!(b.get_pixel(2, 2), Some(Rgb::black()));
    let all = b.pixels();
    assert_eq!(all[11], (3, 2, [10, 20, 30]));
}

#[test]
fn out_of_range_access_is_absorbed() {
    let mut b: Buffer<[u8; 3]> = Buffer::new(4, 3);
    b.set_pixel(1, 1, Rgb::white());
    let before = b.pixels();
    b.set_pixel(4, 0, Rgb::white());
    b.set_pixel(0, 3, Rgb::white());
    b.set_pixel(u32::MAX, u32::MAX, Rgb::white());
    b.clear_pixel(4, 1);
    b.clear_pixel(1, 3);
    assert_eq!(b.pixels(), before);
    assert_eq!(b.get_pixel(4, 0), None);
    assert_eq!(b.get_pixel(0, 3), None);
    assert_eq!(b.get_pixel(u32::MAX, 0), None);
}

#[test]
fn clear_pixel_resets_one_cell() {
    let mut b: Buffer<u16> = Buffer::new(2, 2);
    b.set_pixel(0, 0, Rgb::white());
    b.set_pixel(1, 1, Rgb::white());
    b.clear_pixel(1, 1);
    assert_eq!(b.get_pixel(0, 0), Some(Rgb::white()));
    assert_eq!(b.get_pixel(1, 1), Some(Rgb::black()));
}

#[test]
fn clear_resets_everything() {
    let mut b: Buffer<u16> = Buffer::new(3, 2);
    b.set_pixel(0, 0, Rgb::white());
    b.set_pixel(2, 1, Rgb::white());
    b.clear();
    for (_, _, p) in b.pixels() {
        assert_eq!(p, 0);
    }
}

#[test]
fn pixels_come_row_by_row() {
    let mut b: Buffer<[u8; 3]> = Buffer::new(3, 2);
    b.set_pixel(1, 0, Rgb::new(257, 0, 0));
    b.set_pixel(0, 1, Rgb::new(0, 257 * 2, 0));
    let all = b.pixels();
    let cells: Vec<(u32, u32)> = all.iter().map(|p| (p.0, p.1)).collect();
    assert_eq!(cells, vec![(0, 0), (1, 0), (2, 0), (0, 1), (1, 1), (2, 1)]);
    assert_eq!(all[1].2, [1, 0, 0]);
    assert_eq!(all[3].2, [0, 2, 0]);
    assert_eq!(b.pixels(), all);
}

#[test]
fn clear_rect_upright_clears_only_the_region() {
    let mut b: Buffer<[u8; 3]> = Buffer::new(4, 3);
    for y in 0..3 {
        for x in 0..4 {
            b.set_pixel(x, y, Rgb::white());
        }
    }
    b.clear_rect(RenderRect { x: 1, y: 1, width: 2, height: 5 }, Orientation::Upright);
    for (x, y, p) in b.pixels() {
        let inside = (1..3).contains(&x) && y >= 1;
        assert_eq!(p, if inside { [0, 0, 0] } else { [255, 255, 255] });
    }
}

#[test]
fn clear_rect_rotated_swaps_the_axes() {
    let mut b: Buffer<[u8; 3]> = Buffer::new(4, 3);
    for y in 0..3 {
        for x in 0..4 {
            b.set_pixel(x, y, Rgb::white());
        }
    }
    b.clear_rect(RenderRect { x: 0, y: 1, width: 1, height: 2 }, Orientation::Rotated);
    for (x, y, p) in b.pixels() {
        let inside = y == 0 && (1..3).contains(&x);
        assert_eq!(p, if inside { [0, 0, 0] } else { [255, 255, 255] });
    }
}

#[test]
fn draw_text_blends_over_what_is_there() {
    let mut b: Buffer<[u8; 3]> = Buffer::new(2, 1);
    b.set_pixel(0, 0, Rgb::new(0, 0xFFFF, 0));
    let samples = vec![sample(0, 0, 0x8000), sample(1, 0, 0xFFFF), sample(2, 0, 0xFFFF)];
    b.draw_text(&samples, Rgb::new(0xFFFF, 0, 0), Orientation::Upright);
    assert_eq!(b.pixels(), vec![(0, 0, [127, 127, 0]), (1, 0, [255, 0, 0])]);
}

#[test]
fn draw_text_reads_back_its_own_writes() {
    let mut b: Buffer<[u8; 3]> = Buffer::new(1, 1);
    let samples = vec![sample(0, 0, 0x8000), sample(0, 0, 0x8000)];
    b.draw_text(&samples, Rgb::white(), Orientation::Upright);
    // first sample: 32768 -> 127; second: blend of white over 127 * 257
    assert_eq!(b.pixels(), vec![(0, 0, [191, 191, 191])]);
}

#[test]
fn draw_samples_drops_what_falls_outside_the_clip() {
    let mut b: Buffer<[u8; 3]> = Buffer::new(4, 1);
    let all: Vec<GlyphSample> = (0..4).map(|x| sample(x, 0, 0xFFFF)).collect();
    let clip = RenderRect { x: 1, y: 0, width: 2, height: 1 };
    b.draw_samples(&all, Rgb::white(), clip, Orientation::Upright);
    let colors: Vec<[u8; 3]> = b.pixels().iter().map(|p| p.2).collect();
    assert_eq!(colors, vec![[0, 0, 0], [255, 255, 255], [255, 255, 255], [0, 0, 0]]);
}

#[test]
fn draw_samples_takes_the_bounding_box_offset() {
    let mut b: Buffer<[u8; 3]> = Buffer::new(4, 2);
    let s = GlyphSample { x: 3, y: 0, min_x: -2, min_y: 1, coverage: 0xFFFF };
    let gone = GlyphSample { x: 0, y: 0, min_x: -1, min_y: 0, coverage: 0xFFFF };
    let clip = RenderRect { x: 0, y: 0, width: 4, height: 2 };
    b.draw_samples(&vec![s, gone], Rgb::white(), clip, Orientation::Upright);
    for (x, y, p) in b.pixels() {
        assert_eq!(p, if (x, y) == (1, 1) { [255, 255, 255] } else { [0, 0, 0] });
    }
}

#[test]
fn rotated_samples_run_back_from_the_height() {
    // a buffer 3 wide and 4 high: layout space is 4 wide and 3 high
    let mut b: Buffer<[u8; 3]> = Buffer::new(3, 4);
    let s = GlyphSample { x: 1, y: 2, min_x: 0, min_y: 0, coverage: 0xFFFF };
    // layout point (4 - 1, 2) = (3, 2) is shown by cell (column 2, row 3)
    b.draw_text(&vec![s], Rgb::white(), Orientation::Rotated);
    for (x, y, p) in b.pixels() {
        assert_eq!(p, if (x, y) == (2, 3) { [255, 255, 255] } else { [0, 0, 0] });
    }
    assert_eq!(Orientation::Rotated.place(&s, 4), (3, 2));
    assert_eq!(Orientation::Rotated.cell(3, 2), (2, 3));
    assert_eq!(Orientation::Upright.place(&s, 4), (1, 2));
    assert_eq!(Orientation::Upright.cell(1, 2), (1, 2));
}

#[test]
fn rotated_sample_at_the_origin_is_off_the_grid() {
    let mut b: Buffer<[u8; 3]> = Buffer::new(3, 4);
    let s = GlyphSample { x: 0, y: 0, min_x: 0, min_y: 0, coverage: 0xFFFF };
    b.draw_text(&vec![s], Rgb::white(), Orientation::Rotated);
    for (_, _, p) in b.pixels() {
        assert_eq!(p, [0, 0, 0]);
    }
}

#[test]
fn samples_without_coverage_leave_a_packed_buffer_alone() {
    let mut b: Buffer<u16> = Buffer::new(4, 2);
    for y in 0..2 {
        for x in 0..4 {
            b.set_pixel(x, y, Rgb::new(0x1234 * (x as u16 + 1), 5202 * (y as u16 + 1), 0x0F0F));
        }
    }
    let before = b.pixels();
    assert_eq!(before[4].2, (2 << 11) | (10 << 5) | 1);
    let mut samples = Vec::new();
    for _ in 0..5 {
        for y in 0..2 {
            for x in 0..4 {
                samples.push(sample(x, y, 0));
            }
        }
    }
    b.draw_text(&samples, Rgb::white(), Orientation::Upright);
    assert_eq!(b.pixels(), before);
}

#[test]
fn samples_of_full_coverage_replace_what_they_land_on() {
    let mut b: Buffer<u16> = Buffer::new(3, 1);
    b.set_pixel(0, 0, Rgb::new(0x8000, 0x8000, 0x8000));
    b.set_pixel(1, 0, Rgb::new(0x8000, 0x8000, 0x8000));
    let samples = vec![sample(1, 0, 0xFFFF), sample(2, 0, 0x1000), sample(2, 0, 0xFFFF)];
    b.draw_text(&samples, Rgb::new(0xFFFF, 0, 0), Orientation::Upright);
    let colors: Vec<u16> = b.pixels().iter().map(|p| p.2).collect();
    assert_eq!(colors, vec![0x7BEF, 0xF800, 0xF800]);
}
