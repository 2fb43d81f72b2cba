use sikios::bootinfo::{FrameBufferInfo, ModeInfo, PixelFormat};
use sikios::graphics::{Color, Graphics, FONT_GLYPHS, FONT_GLYPH_ROWS};

fn mode(hor_res: u32, ver_res: u32, format: PixelFormat) -> ModeInfo {
    ModeInfo { version: 0, hor_res, ver_res, format, mask: None, stride: hor_res }
}

fn surface(hor_res: u32, ver_res: u32, format: PixelFormat, font: Vec<u8>) -> Graphics {
    let size = (hor_res as usize) * (ver_res as usize) * 4;
    Graphics::new(FrameBufferInfo { fb: 0, size }, mode(hor_res, ver_res, format), font)
}

fn empty_font() -> Vec<u8> {
    vec![0u8; FONT_GLYPHS * FONT_GLYPH_ROWS]
}

fn pixel(g: &Graphics, hor_res: u32, x: u32, y: u32) -> (u8, u8, u8) {
    let i = ((hor_res * y + x) * 4) as usize;
    (
        g.buffer_byte(i).unwrap(),
        g.buffer_byte(i + 1).unwrap(),
        g.buffer_byte(i + 2).unwrap(),
    )
}

#[test]
fn draw_pixel_rgb_and_bgr_channel_order() {
    let mut g = surface(4, 4, PixelFormat::Rgb, empty_font());
    g.draw_pixel(1, 2, Color(9, 8, 7));
    assert_eq!(pixel(&g, 4, 1, 2), (9, 8, 7));

    let mut g = surface(4, 4, PixelFormat::Bgr, empty_font());
    g.draw_pixel(1, 2, Color(9, 8, 7));
    assert_eq!(pixel(&g, 4, 1, 2), (7, 8, 9));
}

#[test]
fn draw_pixel_outside_surface_changes_nothing() {
    let mut g = surface(4, 4, PixelFormat::Rgb, empty_font());
    g.draw_pixel(5, 0, Color(1, 2, 3));
    g.draw_pixel(0, 9, Color(1, 2, 3));
    for i in 0..4 * 4 * 4 {
        assert_eq!(g.buffer_byte(i), Some(0));
    }
}

#[test]
fn draw_pixel_in_blt_only_mode_changes_nothing() {
    let mut g = surface(4, 4, PixelFormat::BltOnly, empty_font());
    g.draw_pixel(1, 1, Color(1, 2, 3));
    for i in 0..4 * 4 * 4 {
        assert_eq!(g.buffer_byte(i), Some(0));
    }
}

#[test]
fn draw_rect_fills_the_rectangle() {
    let mut g = surface(8, 8, PixelFormat::Rgb, empty_font());
    g.draw_rect(2, 3, 2, 2, Color(5, 6, 7));
    for x in 0..8u32 {
        for y in 0..8u32 {
            let expect = if (2..4).contains(&x) && (3..5).contains(&y) {
                (5, 6, 7)
            } else {
                (0, 0, 0)
            };
            assert_eq!(pixel(&g, 8, x, y), expect);
        }
    }
}

#[test]
fn draw_font_lights_the_glyph_bits() {
    let mut font = empty_font();
    // glyph 'A': top row 0b1100_0000, second row 0b0000_0001.
    font[(b'A' as usize) * 16] = 0xc0;
    font[(b'A' as usize) * 16 + 1] = 0x01;
    let mut g = surface(16, 16, PixelFormat::Rgb, font);
    g.draw_font(2, 3, 'A', Color(1, 2, 3));
    assert_eq!(pixel(&g, 16, 2, 3), (1, 2, 3));
    assert_eq!(pixel(&g, 16, 3, 3), (1, 2, 3));
    assert_eq!(pixel(&g, 16, 4, 3), (0, 0, 0));
    // the low bit of a row byte lights the eighth column.
    assert_eq!(pixel(&g, 16, 9, 4), (1, 2, 3));
    assert_eq!(pixel(&g, 16, 2, 4), (0, 0, 0));
}

#[test]
fn draw_font_ignores_codes_above_ascii() {
    let mut font = empty_font();
    for b in font.iter_mut() {
        *b = 0xff;
    }
    let mut g = surface(16, 16, PixelFormat::Rgb, font);
    g.draw_font(0, 0, 'é', Color(1, 2, 3));
    for i in 0..16 * 16 * 4 {
        assert_eq!(g.buffer_byte(i), Some(0));
    }
}

#[test]
fn draw_fonts_advances_the_pen() {
    let mut font = empty_font();
    font[(b'A' as usize) * 16] = 0x80;
    font[(b'B' as usize) * 16] = 0x80;
    let mut g = surface(32, 32, PixelFormat::Rgb, font);
    g.draw_fonts(1, 1, "AB", Color(4, 5, 6));
    // 'A' at the pen position, 'B' eight pixels to the right.
    assert_eq!(pixel(&g, 32, 1, 1), (4, 5, 6));
    assert_eq!(pixel(&g, 32, 9, 1), (4, 5, 6));
    assert_eq!(pixel(&g, 32, 17, 1), (0, 0, 0));
}

#[test]
fn get_resolve_reports_the_mode() {
    let mut g = surface(123, 45, PixelFormat::Rgb, empty_font());
    assert_eq!(g.get_resolve(), (123, 45));
}

#[test]
fn pixel_position_is_four_bytes_per_pixel() {
    let mut g = surface(100, 50, PixelFormat::Rgb, empty_font());
    assert_eq!(g.pixel_position(0, 0), 0);
    assert_eq!(g.pixel_position(3, 2), (100 * 2 + 3) * 4);
}
