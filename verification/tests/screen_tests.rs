use trip_or_treat::glyph::GlyphSample;
use trip_or_treat::hardware::pi::{Bitfield, ScreenInfo};
use trip_or_treat::hardware::HwError;
use trip_or_treat::screen::fb::{zeros, FramebufferScreen};
use trip_or_treat::screen::{create_screen, draw_text, text_write, text_writes, Screen};

fn rgb565(xres: u32, yres: u32) -> ScreenInfo {
    ScreenInfo {
        xres,
        yres,
        red: Bitfield { offset: 11, length: 5 },
        green: Bitfield { offset: 5, length: 6 },
        blue: Bitfield { offset: 0, length: 5 },
    }
}

#[test]
fn create_screen_opens_a_black_frame() {
    let mut screen = create_screen(rgb565(2, 2)).unwrap();
    assert_eq!((screen.xres(), screen.yres()), (2, 2));
    assert_eq!(screen.max(), [31, 63, 31]);
    assert_eq!(screen.flip(), vec![0u8; 8]);
}

#[test]
fn create_screen_refuses_what_it_cannot_drive() {
    let mut info = rgb565(2, 2);
    info.blue.length = 12;
    assert_eq!(create_screen(info).err(), Some(HwError::Unsupported));
}

#[test]
fn screen_set_pixel_masks_and_packs() {
    let mut screen = FramebufferScreen::open(rgb565(2, 2));
    screen.set_pixel(1, 0, [0xFF, 0xFF, 0xFF]);
    screen.set_pixel(0, 1, [0x21, 0x41, 0x22]);
    screen.set_pixel(2, 0, [0xFF, 0xFF, 0xFF]);
    screen.set_pixel(0, 2, [0xFF, 0xFF, 0xFF]);
    // 0x21 & 31 = 1, 0x41 & 63 = 1, 0x22 & 31 = 2
    assert_eq!(screen.flip(), vec![0, 0, 0xFF, 0xFF, 0x08, 0x22, 0, 0]);
}

#[test]
fn screen_flip_starts_the_next_frame_from_black() {
    let mut screen = FramebufferScreen::open(rgb565(1, 1));
    screen.set_pixel(0, 0, [0xFF, 0xFF, 0xFF]);
    assert_eq!(screen.flip(), vec![0xFF, 0xFF]);
    assert_eq!(screen.flip(), vec![0, 0]);
    assert_eq!(zeros(3), vec![0, 0, 0]);
}

#[test]
fn text_write_rescales_coverage_to_the_sink() {
    let s = GlyphSample { x: 1, y: 0, min_x: 2, min_y: 1, coverage: 0x8000 };
    let w = text_write(&s, 4, 4, [31, 63, 255]).unwrap();
    assert_eq!((w.x, w.y, w.rgb), (3, 1, [15, 31, 127]));
    let off = GlyphSample { x: 1, y: 0, min_x: 3, min_y: 1, coverage: 0x8000 };
    assert!(text_write(&off, 4, 4, [31, 63, 255]).is_none());
    let left = GlyphSample { x: 1, y: 0, min_x: -2, min_y: 0, coverage: 0x8000 };
    assert!(text_write(&left, 4, 4, [31, 63, 255]).is_none());
    let wide = GlyphSample { x: 5, y: 0, min_x: -3, min_y: 0, coverage: 0x8000 };
    assert!(text_write(&wide, 4, 4, [31, 63, 255]).is_none());
    let edge = GlyphSample { x: 4, y: 0, min_x: -3, min_y: 0, coverage: 0xFFFF };
    assert_eq!(text_write(&edge, 4, 4, [31, 63, 31]).map(|w| (w.x, w.y, w.rgb)), Some((1, 0, [31, 63, 31])));
}

#[test]
fn draw_text_writes_each_sample_in_order() {
    let mut screen = FramebufferScreen::open(rgb565(2, 1));
    let samples = vec![
        GlyphSample { x: 0, y: 0, min_x: 0, min_y: 0, coverage: 0xFFFF },
        GlyphSample { x: 0, y: 0, min_x: 1, min_y: 0, coverage: 0xFFFF },
        GlyphSample { x: 0, y: 0, min_x: 1, min_y: 0, coverage: 0x8000 },
        GlyphSample { x: 0, y: 0, min_x: 2, min_y: 0, coverage: 0xFFFF },
    ];
    draw_text(&mut screen, &samples);
    // the later sample on cell (1, 0) wins: 15 << 11 | 31 << 5 | 15
    assert_eq!(screen.flip(), vec![0xFF, 0xFF, 0x7B, 0xEF]);
}

#[test]
fn text_writes_keeps_the_order_and_drops_what_lands_off_the_screen() {
    let samples = vec![
        GlyphSample { x: 0, y: 0, min_x: 1, min_y: 0, coverage: 0xFFFF },
        GlyphSample { x: 0, y: 0, min_x: 2, min_y: 0, coverage: 0xFFFF },
        GlyphSample { x: 0, y: 0, min_x: 0, min_y: 0, coverage: 0x8000 },
        GlyphSample { x: 0, y: 0, min_x: 0, min_y: -1, coverage: 0x8000 },
    ];
    let writes: Vec<(u32, u32, [u8; 3])> =
        text_writes(&samples, 2, 1, [31, 63, 31]).iter().map(|w| (w.x, w.y, w.rgb)).collect();
    assert_eq!(writes, vec![(1, 0, [31, 63, 31]), (0, 0, [15, 31, 15])]);
    assert!(text_writes(&vec![], 2, 1, [31, 63, 31]).is_empty());
}
