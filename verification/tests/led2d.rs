use device_envoy_core::led2d::{
    glyph_color, text_glyph_positions, Frame2d, GlyphMetrics, GlyphPosition, Led2dFont, Rgb8,
};

const CYAN: Rgb8 = Rgb8 { r: 0, g: 255, b: 255 };
const BLACK: Rgb8 = Rgb8 { r: 0, g: 0, b: 0 };

#[test]
fn new_frame_is_black_and_pixels_can_be_set() {
    let mut frame = Frame2d::<12, 8>::new();
    assert_eq!(frame.get(11, 7), BLACK);
    frame.set(0, 0, CYAN);
    assert_eq!(frame.get(0, 0), CYAN);
    assert_eq!(frame.0[0][0], CYAN);
    assert_eq!(frame.get(1, 0), BLACK);
    let filled = Frame2d::<3, 2>::filled(Rgb8::new(1, 2, 3));
    assert_eq!(filled.get(2, 1), Rgb8::new(1, 2, 3));
    assert_eq!(Frame2d::<3, 2>::default().get(1, 1), BLACK);
}

#[test]
fn drawing_outside_the_frame_is_clipped() {
    let mut frame = Frame2d::<4, 3>::new();
    frame.draw_pixel(-1, 0, CYAN);
    frame.draw_pixel(4, 0, CYAN);
    frame.draw_pixel(0, 3, CYAN);
    for row in frame.0.iter() {
        for pixel in row.iter() {
            assert_eq!(*pixel, BLACK);
        }
    }
    frame.draw_pixel(3, 2, CYAN);
    assert_eq!(frame.get(3, 2), CYAN);
}

#[test]
fn trimmed_fonts_pack_one_pixel_tighter() {
    assert_eq!(Led2dFont::Font3x5Trim.spacing_reduction(), (1, 1));
    assert_eq!(Led2dFont::Font9x19Trim.spacing_reduction(), (1, 1));
    assert_eq!(Led2dFont::Font10x20.spacing_reduction(), (0, 0));
    // The 3x4 font is already trimmed in its bitmap.
    assert_eq!(Led2dFont::Font3x4Trim.spacing_reduction(), (0, 0));
}

#[test]
fn text_flows_clips_and_breaks_lines() {
    let metrics = GlyphMetrics { width: 4, height: 6, baseline: 5 };
    let text: Vec<char> = "abcd\nef".chars().collect();
    let glyphs = text_glyph_positions::<12, 12>(&text, metrics, (1, 1));
    // Advance 3 px: a, b, c fit in 12 px (x = 0, 3, 6, then 9 + 3 = 12 fits too).
    assert_eq!(
        glyphs,
        vec![
            GlyphPosition { ch: 'a', x: 0, y: 5 },
            GlyphPosition { ch: 'b', x: 3, y: 5 },
            GlyphPosition { ch: 'c', x: 6, y: 5 },
            GlyphPosition { ch: 'd', x: 9, y: 5 },
            GlyphPosition { ch: 'e', x: 0, y: 10 },
            GlyphPosition { ch: 'f', x: 3, y: 10 },
        ]
    );
}

#[test]
fn characters_past_the_right_edge_are_skipped() {
    let metrics = GlyphMetrics { width: 5, height: 7, baseline: 6 };
    let text: Vec<char> = "abc\nd".chars().collect();
    let glyphs = text_glyph_positions::<12, 20>(&text, metrics, (0, 0));
    assert_eq!(glyphs.len(), 3);
    assert_eq!(glyphs[1], GlyphPosition { ch: 'b', x: 5, y: 6 });
    assert_eq!(glyphs[2], GlyphPosition { ch: 'd', x: 0, y: 13 });
}

#[test]
fn text_ends_below_the_frame() {
    let metrics = GlyphMetrics { width: 3, height: 4, baseline: 3 };
    let text: Vec<char> = "a\nb\nc".chars().collect();
    let glyphs = text_glyph_positions::<8, 6>(&text, metrics, (0, 0));
    // The second row starts 4 px down, inside 6 px; the third would start at 8.
    assert_eq!(glyphs.iter().map(|glyph| glyph.ch).collect::<String>(), "ab");
}

#[test]
fn glyph_colors_cycle_and_default_to_white() {
    let red = Rgb8::new(255, 0, 0);
    let blue = Rgb8::new(0, 0, 255);
    assert_eq!(glyph_color(&[], 5), Rgb8::new(255, 255, 255));
    assert_eq!(glyph_color(&[red, blue], 0), red);
    assert_eq!(glyph_color(&[red, blue], 1), blue);
    assert_eq!(glyph_color(&[red, blue], 4), red);
    assert_eq!(glyph_color(&[red, CYAN, blue], 5), blue);
}
