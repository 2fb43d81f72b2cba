//! Pixel and glyph drawing into an owned pixel buffer that stands for the
//! linear frame buffer the display hardware scans out.

use vstd::prelude::*;
use vstd::string::StrSliceExecFns;

use crate::bootinfo::{FrameBufferInfo, ModeInfo, PixelFormat};

verus! {

/// Rows of one glyph in the font table.
pub const FONT_GLYPH_ROWS: usize = 16;

/// Glyphs in the font table: one per 7-bit character code.
pub const FONT_GLYPHS: usize = 128;

/// A red/green/blue color triple.
#[derive(Debug, Copy, Clone, PartialEq, Eq, Structural)]
pub struct Color(pub u32, pub u32, pub u32);

/// The drawing surface: the display mode, the frame-buffer descriptor, an
/// owned pixel buffer standing for the frame-buffer memory, and the glyph
/// table used for text.
#[derive(Debug, Clone, PartialEq, Eq)]
pub struct Graphics {
    frame_buffer_info: FrameBufferInfo,
    mode_info: ModeInfo,
    buffer: Vec<u8>,
    font: Vec<u8>,
}

/// The pixel buffer after one pixel write: within bounds and in a direct
/// color mode, three channel bytes land at the pixel's byte position, in
/// RGB or BGR order; otherwise nothing changes.
pub open spec fn spec_draw_pixel(buffer: Seq<u8>, mode: ModeInfo, x: u32, y: u32, c: Color) -> Seq<u8> {
    let i = (mode.hor_res * y + x) * 4;
    if x <= mode.hor_res && y <= mode.ver_res && i + 2 < buffer.len() {
        if mode.format is Rgb {
            buffer.update(i, c.0 as u8).update(i + 1, c.1 as u8).update(i + 2, c.2 as u8)
        } else if mode.format is Bgr {
            buffer.update(i, c.2 as u8).update(i + 1, c.1 as u8).update(i + 2, c.0 as u8)
        } else {
            buffer
        }
    } else {
        buffer
    }
}

/// The pixel buffer after one column of a rectangle is filled, bottom row
/// first in the fold, matching the drawing order.
pub open spec fn spec_draw_column(buffer: Seq<u8>, mode: ModeInfo, cx: u32, y: u32, h: int, c: Color) -> Seq<u8>
    decreases h,
{
    if h <= 0 {
        buffer
    } else {
        spec_draw_pixel(spec_draw_column(buffer, mode, cx, y, h - 1, c), mode, cx,
            (y + h - 1) as u32, c)
    }
}

/// The pixel buffer after a filled rectangle, column by column.
pub open spec fn spec_draw_rect(buffer: Seq<u8>, mode: ModeInfo, x: u32, y: u32, w: int, h: int, c: Color) -> Seq<u8>
    decreases w,
{
    if w <= 0 {
        buffer
    } else {
        spec_draw_column(spec_draw_rect(buffer, mode, x, y, w - 1, h, c), mode,
            (x + w - 1) as u32, y, h, c)
    }
}

/// One glyph row: each set bit of the row byte, from the high bit down,
/// lights the corresponding pixel.
pub open spec fn spec_draw_font_cells(buffer: Seq<u8>, mode: ModeInfo, line: u8, x: u32, yy: u32, dx: int, c: Color) -> Seq<u8>
    decreases dx,
{
    if dx <= 0 {
        buffer
    } else {
        let prev = spec_draw_font_cells(buffer, mode, line, x, yy, dx - 1, c);
        if (line << ((dx - 1) as u32)) & 0x80 != 0 {
            spec_draw_pixel(prev, mode, (x + dx - 1) as u32, yy, c)
        } else {
            prev
        }
    }
}

/// One glyph, row by row from the font table.
pub open spec fn spec_draw_font_rows(buffer: Seq<u8>, mode: ModeInfo, font: Seq<u8>, glyph: int, x: u32, y: u32, dy: int, c: Color) -> Seq<u8>
    decreases dy,
{
    if dy <= 0 {
        buffer
    } else {
        let prev = spec_draw_font_rows(buffer, mode, font, glyph, x, y, dy - 1, c);
        spec_draw_font_cells(prev, mode, font[glyph * 16 + dy - 1], x, (y + dy - 1) as u32, 8, c)
    }
}

/// The pixel buffer after one character: codes above 0x7f draw nothing.
pub open spec fn spec_draw_font(buffer: Seq<u8>, mode: ModeInfo, font: Seq<u8>, x: u32, y: u32, ch: char, c: Color) -> Seq<u8> {
    if ch as u32 > 0x7f {
        buffer
    } else {
        spec_draw_font_rows(buffer, mode, font, (ch as u32) as int, x, y, 16, c)
    }
}

/// The pixel buffer after the characters from `idx` on are drawn: each
/// glyph advances the pen 8 pixels, the pen wraps 20 pixels down past the
/// right edge, and drawing stops below the bottom edge.
pub open spec fn spec_draw_fonts_from(buffer: Seq<u8>, mode: ModeInfo, font: Seq<u8>, first_x: u32, x: u32, y: u32, chars: Seq<char>, idx: int, c: Color) -> Seq<u8>
    decreases chars.len() - idx,
{
    if idx < 0 || idx >= chars.len() {
        buffer
    } else {
        let b2 = spec_draw_font(buffer, mode, font, x, y, chars[idx], c);
        let x2 = (x + 8) as u32;
        let x3 = if x2 > mode.hor_res { first_x } else { x2 };
        let y3 = if x2 > mode.hor_res { (y + 20) as u32 } else { y };
        if y3 > mode.ver_res {
            b2
        } else {
            spec_draw_fonts_from(b2, mode, font, first_x, x3, y3, chars, idx + 1, c)
        }
    }
}

impl Graphics {
    /// The pixel buffer is exactly as large as the frame buffer it stands
    /// for, and the font table holds 16 rows for each of 128 glyphs.
    pub closed spec fn wf(self) -> bool {
        &&& self.buffer@.len() == self.frame_buffer_info.size
        &&& self.font@.len() == FONT_GLYPHS * FONT_GLYPH_ROWS
    }

    /// The frame-buffer descriptor the surface was made for.
    pub closed spec fn fb_info(self) -> FrameBufferInfo {
        self.frame_buffer_info
    }

    /// The display mode the surface draws in.
    pub closed spec fn mode(self) -> ModeInfo {
        self.mode_info
    }

    /// The owned pixel buffer.
    pub closed spec fn pixels(self) -> Seq<u8> {
        self.buffer@
    }

    /// The glyph table.
    pub closed spec fn font_data(self) -> Seq<u8> {
        self.font@
    }

    /// A surface for the given mode: a zeroed pixel buffer of the frame
    /// buffer's size, drawing with the given glyph table.
    pub fn new(frame_buffer_info: FrameBufferInfo, mode_info: ModeInfo, font: Vec<u8>) -> (r: Graphics)
        requires
            font@.len() == FONT_GLYPHS * FONT_GLYPH_ROWS,
        ensures
            r.wf(),
            r.fb_info() == frame_buffer_info,
            r.mode() == mode_info,
            r.font_data() == font@,
            r.pixels().len() == frame_buffer_info.size,
            forall|i: int| 0 <= i < r.pixels().len() ==> r.pixels()[i] == 0,
    {
        let mut buffer: Vec<u8> = Vec::new();
        while buffer.len() < frame_buffer_info.size
            invariant
                buffer@.len() <= frame_buffer_info.size,
                forall|i: int| 0 <= i < buffer@.len() ==> buffer@[i] == 0,
            decreases frame_buffer_info.size - buffer@.len(),
        {
            buffer.push(0);
        }
        Graphics { frame_buffer_info, mode_info, buffer, font }
    }

    /// The mode's horizontal and vertical resolution.
    pub fn get_resolve(&mut self) -> (r: (u32, u32))
        ensures
            *final(self) == *old(self),
            r.0 == old(self).mode().hor_res,
            r.1 == old(self).mode().ver_res,
    {
        (self.mode_info.hor_res, self.mode_info.ver_res)
    }

    /// The byte of the pixel buffer at `index`, or nothing outside it.
    pub fn buffer_byte(&self, index: usize) -> (r: Option<u8>)
        ensures
            r == if index < self.pixels().len() { Some(self.pixels()[index as int]) } else { None::<u8> },
    {
        if index < self.buffer.len() {
            Some(self.buffer[index])
        } else {
            None
        }
    }

    /// Byte position of the pixel at (`x`, `y`): four bytes per pixel, row
    /// by row.
    pub fn pixel_position(&mut self, x: u32, y: u32) -> (r: usize)
        requires
            (old(self).mode().hor_res * y + x) * 4 <= usize::MAX,
        ensures
            *final(self) == *old(self),
            r == (old(self).mode().hor_res * y + x) * 4,
    {
        proof {
            let hr = self.mode_info.hor_res as int;
            assert(hr * y >= 0 && hr * y <= hr * y + x && (hr * y + x) <= (hr * y + x) * 4)
                by (nonlinear_arith)
                requires hr >= 0, y >= 0, x >= 0;
        }
        ((self.mode_info.hor_res as usize) * (y as usize) + (x as usize)) * 4
    }

    /// Write one pixel, as `spec_draw_pixel` describes: out-of-surface
    /// positions and indirect color modes change nothing.
    pub fn draw_pixel(&mut self, x: u32, y: u32, pixel_color: Color)
        requires
            old(self).wf(),
        ensures
            final(self).wf(),
            final(self).fb_info() == old(self).fb_info(),
            final(self).mode() == old(self).mode(),
            final(self).font_data() == old(self).font_data(),
            final(self).pixels() == spec_draw_pixel(old(self).pixels(), old(self).mode(), x, y,
                pixel_color),
    {
        let (width, height) = self.get_resolve();
        if !(x <= width && y <= height) {
            return;
        }
        proof {
            let hr = self.mode_info.hor_res as int;
            assert(hr * y < 0x1_0000_0000_0000_0000int) by (nonlinear_arith)
                requires 0 <= hr < 0x1_0000_0000, 0 <= y < 0x1_0000_0000;
        }
        let pos: u128 = ((self.mode_info.hor_res as u128) * (y as u128) + (x as u128)) * 4;
        if pos + 2 < self.buffer.len() as u128 {
            let i = pos as usize;
            proof {
                assert(i == (old(self).mode().hor_res * y + x) * 4);
            }
            match self.mode_info.format {
                PixelFormat::Rgb => {
                    self.buffer.set(i, pixel_color.0 as u8);
                    self.buffer.set(i + 1, pixel_color.1 as u8);
                    self.buffer.set(i + 2, pixel_color.2 as u8);
                },
                PixelFormat::Bgr => {
                    self.buffer.set(i, pixel_color.2 as u8);
                    self.buffer.set(i + 1, pixel_color.1 as u8);
                    self.buffer.set(i + 2, pixel_color.0 as u8);
                },
                _ => {},
            }
        }
    }

    /// Fill a rectangle, as `spec_draw_rect` describes.
    pub fn draw_rect(&mut self, x: u32, y: u32, width: u32, height: u32, pixel_color: Color)
        requires
            old(self).wf(),
            x + width <= u32::MAX,
            y + height <= u32::MAX,
        ensures
            final(self).wf(),
            final(self).fb_info() == old(self).fb_info(),
            final(self).mode() == old(self).mode(),
            final(self).font_data() == old(self).font_data(),
            final(self).pixels() == spec_draw_rect(old(self).pixels(), old(self).mode(), x, y,
                width as int, height as int, pixel_color),
    {
        let ghost b0 = self.pixels();
        let ghost mode = self.mode_info;
        let mut i: u32 = 0;
        while i < width
            invariant
                self.wf(),
                self.frame_buffer_info == old(self).frame_buffer_info,
                self.mode_info == old(self).mode_info,
                self.font_data() == old(self).font_data(),
                mode == old(self).mode_info,
                b0 == old(self).pixels(),
                i <= width,
                x + width <= u32::MAX,
                y + height <= u32::MAX,
                self.pixels() == spec_draw_rect(b0, mode, x, y, i as int, height as int,
                    pixel_color),
            decreases width - i,
        {
            let ghost col0 = self.pixels();
            let mut j: u32 = 0;
            while j < height
                invariant
                    self.wf(),
                    self.frame_buffer_info == old(self).frame_buffer_info,
                    self.mode_info == old(self).mode_info,
                    self.font_data() == old(self).font_data(),
                    mode == old(self).mode_info,
                    i < width,
                    j <= height,
                    x + width <= u32::MAX,
                    y + height <= u32::MAX,
                    self.pixels() == spec_draw_column(col0, mode, (i + x) as u32, y, j as int,
                        pixel_color),
                decreases height - j,
            {
                self.draw_pixel(i + x, j + y, pixel_color);
                proof {
                    assert((y + (j + 1) - 1) as u32 == (j + y) as u32);
                }
                j += 1;
            }
            proof {
                assert(self.pixels() == spec_draw_column(col0, mode, (x + (i + 1) - 1) as u32, y,
                    height as int, pixel_color));
            }
            i += 1;
        }
    }

    /// Draw one character's glyph, as `spec_draw_font` describes.
    pub fn draw_font(&mut self, x: u32, y: u32, c: char, pixel_color: Color)
        requires
            old(self).wf(),
            x + 8 <= u32::MAX,
            y + 16 <= u32::MAX,
        ensures
            final(self).wf(),
            final(self).fb_info() == old(self).fb_info(),
            final(self).mode() == old(self).mode(),
            final(self).font_data() == old(self).font_data(),
            final(self).pixels() == spec_draw_font(old(self).pixels(), old(self).mode(),
                old(self).font_data(), x, y, c, pixel_color),
    {
        let code = c as u32;
        if code > 0x7f {
            return;
        }
        let ghost b0 = self.pixels();
        let ghost mode = self.mode_info;
        let ghost fontd = self.font_data();
        let glyph = code as usize;
        let mut dy: u32 = 0;
        while dy < 16
            invariant
                self.wf(),
                self.frame_buffer_info == old(self).frame_buffer_info,
                self.mode_info == old(self).mode_info,
                self.font_data() == old(self).font_data(),
                mode == old(self).mode_info,
                fontd == old(self).font_data(),
                glyph == code && code <= 0x7f,
                dy <= 16,
                x + 8 <= u32::MAX,
                y + 16 <= u32::MAX,
                self.pixels() == spec_draw_font_rows(b0, mode, fontd, glyph as int, x, y,
                    dy as int, pixel_color),
            decreases 16 - dy,
        {
            let line = self.font[glyph * 16 + dy as usize];
            proof {
                assert(line == fontd[glyph as int * 16 + dy as int]);
            }
            let ghost row0 = self.pixels();
            let mut dx: u32 = 0;
            while dx < 8
                invariant
                    self.wf(),
                    self.frame_buffer_info == old(self).frame_buffer_info,
                    self.mode_info == old(self).mode_info,
                    self.font_data() == old(self).font_data(),
                    mode == old(self).mode_info,
                    dx <= 8,
                    dy < 16,
                    x + 8 <= u32::MAX,
                    y + 16 <= u32::MAX,
                    self.pixels() == spec_draw_font_cells(row0, mode, line, x, (y + dy) as u32,
                        dx as int, pixel_color),
                decreases 8 - dx,
            {
                if (line << dx) & 0x80 != 0 {
                    self.draw_pixel(x + dx, y + dy, pixel_color);
                }
                proof {
                    assert((x + (dx + 1) - 1) as u32 == (x + dx) as u32);
                    assert(((dx + 1) - 1) as u32 == dx);
                }
                dx += 1;
            }
            proof {
                assert((y + (dy + 1) - 1) as u32 == (y + dy) as u32);
            }
            dy += 1;
        }
    }

    /// Draw a string of glyphs, as `spec_draw_fonts_from` describes: the pen
    /// advances 8 pixels per glyph, wraps 20 pixels down past the right
    /// edge, and stops below the bottom edge.
    pub fn draw_fonts(&mut self, x: u32, y: u32, str: &str, pixel_color: Color)
        requires
            old(self).wf(),
            x + 8 <= u32::MAX,
            y + 20 <= u32::MAX,
            old(self).mode().hor_res + 8 <= u32::MAX,
            old(self).mode().ver_res + 20 <= u32::MAX,
        ensures
            final(self).wf(),
            final(self).fb_info() == old(self).fb_info(),
            final(self).mode() == old(self).mode(),
            final(self).font_data() == old(self).font_data(),
            final(self).pixels() == spec_draw_fonts_from(old(self).pixels(), old(self).mode(),
                old(self).font_data(), x, x, y, str@, 0, pixel_color),
    {
        let ghost total = spec_draw_fonts_from(self.pixels(), self.mode_info, self.font_data(),
            x, x, y, str@, 0, pixel_color);
        let first_x = x;
        let len = str.unicode_len();
        let (width, height) = self.get_resolve();
        let mut xx = x;
        let mut yy = y;
        let mut i: usize = 0;
        while i < len
            invariant
                self.wf(),
                self.frame_buffer_info == old(self).frame_buffer_info,
                self.mode_info == old(self).mode_info,
                self.font_data() == old(self).font_data(),
                width == old(self).mode().hor_res,
                height == old(self).mode().ver_res,
                first_x == x,
                x + 8 <= u32::MAX,
                width + 8 <= u32::MAX,
                height + 20 <= u32::MAX,
                xx + 8 <= u32::MAX,
                yy + 20 <= u32::MAX,
                i <= len,
                len == str@.len(),
                total == spec_draw_fonts_from(old(self).pixels(), old(self).mode_info,
                    old(self).font_data(), x, x, y, str@, 0, pixel_color),
                total == spec_draw_fonts_from(self.pixels(), old(self).mode_info,
                    old(self).font_data(), first_x, xx, yy, str@, i as int, pixel_color),
            decreases len - i,
        {
            let ghost p0 = self.pixels();
            let ghost xx0 = xx;
            let ghost yy0 = yy;
            let c = str.get_char(i);
            self.draw_font(xx, yy, c, pixel_color);
            xx += 8;
            if xx > width {
                xx = first_x;
                yy += 20;
            }
            proof {
                let mode = old(self).mode_info;
                let fontd = old(self).font_data();
                assert(str@[i as int] == c);
                assert(self.pixels() == spec_draw_font(p0, mode, fontd, xx0, yy0, c,
                    pixel_color));
                // one unfolding of the fold, matching this iteration's step.
                assert(spec_draw_fonts_from(p0, mode, fontd, first_x, xx0, yy0, str@, i as int,
                    pixel_color) == if yy > mode.ver_res {
                    self.pixels()
                } else {
                    spec_draw_fonts_from(self.pixels(), mode, fontd, first_x, xx, yy, str@,
                        i + 1, pixel_color)
                });
            }
            if yy > height {
                return;
            }
            i += 1;
        }
    }
}

} // verus!
