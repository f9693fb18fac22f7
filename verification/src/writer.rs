//! The framebuffer writer: cursor movement, line wrapping, scrolling and
//! glyph blitting over a byte-addressed pixel buffer.

use vstd::prelude::*;
use vstd::arithmetic::mul::lemma_mul_inequality;
use vstd::arithmetic::mul::lemma_mul_is_commutative;
use vstd::arithmetic::mul::lemma_mul_is_distributive_add_other_way;
use crate::glyph::get_char_raster;
use crate::glyph::glyph_dims_ok;
use crate::glyph::glyph_view;
use crate::glyph::BORDER_PADDING;
use crate::glyph::CHAR_RASTER_HEIGHT;
use crate::glyph::CHAR_RASTER_WIDTH;
use crate::glyph::FONT_WIDTH;
use crate::glyph::LINE_HEIGHT;
use crate::model::blit_cells;
use crate::model::cell_offset;
use crate::model::lemma_blit_cells_len;
use crate::model::lemma_cell_number;
use crate::model::lemma_cell_offset_in_bounds;
use crate::model::lemma_row_span_in_stride;
use crate::model::scrolled_bytes;
use crate::model::spec_blit;
use crate::model::spec_carriage_return;
use crate::model::spec_newline;
use crate::model::spec_scroll;
use crate::model::spec_write_char;
use crate::model::spec_write_rendered;
use crate::model::spec_write_str;
use crate::model::lemma_write_char_y_bound;
use crate::model::lemma_write_str_snoc;
use crate::model::ConsoleView;
use crate::pixel::PixelFormat;

verus! {

/// Renders text into a linear framebuffer: owns the buffer bytes, the
/// geometry they were described with, the pixel format, and the cursor.
pub struct FramebufferWriter {
    buffer: Vec<u8>,
    width: usize,
    height: usize,
    stride: usize,
    pixel_format: PixelFormat,
    x_pos: usize,
    y_pos: usize,
    initialized: bool,
}

impl View for FramebufferWriter {
    type V = ConsoleView;

    closed spec fn view(&self) -> ConsoleView {
        ConsoleView {
            buf: self.buffer@,
            width: self.width as nat,
            height: self.height as nat,
            stride: self.stride as nat,
            format: self.pixel_format,
            x: self.x_pos as nat,
            y: self.y_pos as nat,
        }
    }
}

impl FramebufferWriter {
    /// Whether `init` has bound a buffer to this writer.
    pub closed spec fn is_init(&self) -> bool {
        self.initialized
    }

    /// Well-formedness after initialization: the buffer holds exactly
    /// `stride * height` bytes, a whole row of pixels fits inside one
    /// stride, and the geometry is small enough that cursor arithmetic
    /// cannot overflow the machine's word.
    pub closed spec fn wf(&self) -> bool {
        &&& self.initialized
        &&& self.buffer@.len() == self.stride * self.height
        &&& self.width * self.pixel_format.spec_bytes_per_pixel() <= self.stride
        &&& self.width + 2 * FONT_WIDTH <= usize::MAX
        &&& self.height <= u32::MAX
        &&& self.stride <= u32::MAX
    }

    /// The cursor column never strays further than one font advance past
    /// the right edge.
    pub closed spec fn cursor_in_bounds(&self) -> bool {
        self.x_pos <= self.width + FONT_WIDTH
    }

    /// The placeholder writer that exists before boot hands over a
    /// framebuffer: not initialized, cursor at the border padding.
    pub fn new() -> (w: FramebufferWriter)
        ensures
            !w.is_init(),
            w@.x == BORDER_PADDING,
            w@.y == BORDER_PADDING,
    {
        FramebufferWriter {
            buffer: Vec::new(),
            width: 0,
            height: 0,
            stride: 0,
            pixel_format: PixelFormat::RGBA8888,
            x_pos: BORDER_PADDING,
            y_pos: BORDER_PADDING,
            initialized: false,
        }
    }

    /// Binds a framebuffer to the writer: `buffer` holds the region's
    /// `stride * height` bytes, and the pixel format is derived from the
    /// bits-per-pixel value. An unsupported bit depth is a fatal
    /// configuration fault, so callers must check it first; the cursor is
    /// left where it was and the buffer contents are not cleared.
    pub fn init(&mut self, buffer: Vec<u8>, width: u32, height: u32, bpp: u8, stride: u32)
        requires
            PixelFormat::spec_from_bpp(bpp) is Some,
            buffer@.len() == stride * height,
            width * PixelFormat::spec_from_bpp(bpp)->Some_0.spec_bytes_per_pixel() <= stride,
            width + 2 * FONT_WIDTH <= usize::MAX,
        ensures
            final(self).wf(),
            final(self)@ == (ConsoleView {
                buf: buffer@,
                width: width as nat,
                height: height as nat,
                stride: stride as nat,
                format: PixelFormat::spec_from_bpp(bpp)->Some_0,
                x: old(self)@.x,
                y: old(self)@.y,
            }),
    {
        let format = PixelFormat::from_bpp(bpp).unwrap();
        self.buffer = buffer;
        self.width = width as usize;
        self.height = height as usize;
        self.stride = stride as usize;
        self.pixel_format = format;
        self.initialized = true;
    }

    /// Resets the cursor to the border padding and fills every byte of the
    /// buffer with zero. Geometry and pixel format are untouched.
    pub fn clear(&mut self)
        requires
            old(self).wf(),
        ensures
            final(self).wf(),
            final(self).cursor_in_bounds(),
            final(self)@ == (ConsoleView {
                buf: Seq::new(old(self)@.buf.len(), |i: int| 0u8),
                x: BORDER_PADDING as nat,
                y: BORDER_PADDING as nat,
                ..old(self)@
            }),
    {
        self.x_pos = BORDER_PADDING;
        self.y_pos = BORDER_PADDING;
        let ghost pre = *self;
        let n = self.buffer.len();
        let mut i: usize = 0;
        while i < n
            invariant
                i <= n,
                n == self.buffer@.len(),
                self.width == pre.width,
                self.height == pre.height,
                self.stride == pre.stride,
                self.pixel_format == pre.pixel_format,
                self.x_pos == pre.x_pos,
                self.y_pos == pre.y_pos,
                self.initialized == pre.initialized,
                forall|j: int| 0 <= j < i ==> self.buffer@[j] == 0u8,
            decreases n - i,
        {
            self.buffer[i] = 0;
            i += 1;
        }
        proof {
            assert(self.buffer@ =~= Seq::new(old(self)@.buf.len(), |j: int| 0u8));
        }
    }

    /// Moves the cursor back to the border padding of the current line.
    pub fn carriage_return(&mut self)
        ensures
            final(self)@ == spec_carriage_return(old(self)@),
            final(self).is_init() == old(self).is_init(),
            old(self).wf() ==> final(self).wf(),
            final(self).cursor_in_bounds(),
    {
        self.x_pos = BORDER_PADDING;
    }

    /// Moves the cursor down one line height and back to the border
    /// padding.
    pub fn newline(&mut self)
        requires
            old(self)@.y + LINE_HEIGHT <= usize::MAX,
        ensures
            final(self)@ == spec_newline(old(self)@),
            final(self).is_init() == old(self).is_init(),
            old(self).wf() ==> final(self).wf(),
            final(self).cursor_in_bounds(),
    {
        self.y_pos = self.y_pos + LINE_HEIGHT;
        self.carriage_return();
    }

    /// Scrolls one text line: every byte from the second line on moves up
    /// by one line height of bytes, the vacated bottom region is
    /// zero-filled, and the cursor moves up one line height, saturating at
    /// zero.
    pub fn scroll(&mut self)
        requires
            old(self).wf(),
            LINE_HEIGHT <= old(self)@.height,
        ensures
            final(self).wf(),
            final(self).cursor_in_bounds() == old(self).cursor_in_bounds(),
            final(self)@ == spec_scroll(old(self)@),
    {
        let n = self.buffer.len();
        proof {
            lemma_mul_inequality(LINE_HEIGHT as int, self.height as int, self.stride as int);
            lemma_mul_is_commutative(self.height as int, self.stride as int);
        }
        let scroll_bytes = LINE_HEIGHT * self.stride;
        let keep = n - scroll_bytes;
        let ghost pre = *self;
        let mut i: usize = 0;
        while i < keep
            invariant
                i <= keep,
                keep + scroll_bytes == n,
                n == self.buffer@.len(),
                scroll_bytes == LINE_HEIGHT * pre.stride,
                self.width == pre.width,
                self.height == pre.height,
                self.stride == pre.stride,
                self.pixel_format == pre.pixel_format,
                self.x_pos == pre.x_pos,
                self.y_pos == pre.y_pos,
                self.initialized == pre.initialized,
                self.buffer@.len() == pre.buffer@.len(),
                forall|j: int| 0 <= j < i ==> self.buffer@[j] == pre.buffer@[j + scroll_bytes],
                forall|j: int| i <= j < n ==> self.buffer@[j] == pre.buffer@[j],
            decreases keep - i,
        {
            let b = self.buffer[i + scroll_bytes];
            self.buffer[i] = b;
            i += 1;
        }
        while i < n
            invariant
                keep <= i <= n,
                keep + scroll_bytes == n,
                n == self.buffer@.len(),
                scroll_bytes == LINE_HEIGHT * pre.stride,
                self.width == pre.width,
                self.height == pre.height,
                self.stride == pre.stride,
                self.pixel_format == pre.pixel_format,
                self.x_pos == pre.x_pos,
                self.y_pos == pre.y_pos,
                self.initialized == pre.initialized,
                self.buffer@.len() == pre.buffer@.len(),
                forall|j: int| 0 <= j < keep ==> self.buffer@[j] == pre.buffer@[j + scroll_bytes],
                forall|j: int| keep <= j < i ==> self.buffer@[j] == 0u8,
            decreases n - i,
        {
            self.buffer[i] = 0;
            i += 1;
        }
        self.y_pos = if self.y_pos >= LINE_HEIGHT {
            self.y_pos - LINE_HEIGHT
        } else {
            0
        };
        proof {
            assert(self.buffer@ =~= scrolled_bytes(pre.buffer@, pre.stride as nat));
        }
    }

    /// Blits a glyph raster at the cursor: if its bounding box would overrun
    /// the visible area the glyph is dropped whole, otherwise every one of
    /// its pixels is encoded into the buffer; either way the cursor advances
    /// by the font advance width.
    pub fn write_rendered_char(&mut self, glyph: &Vec<Vec<u8>>)
        requires
            old(self).wf(),
            glyph_dims_ok(glyph_view(*glyph)),
            old(self)@.x + FONT_WIDTH <= usize::MAX,
            old(self)@.y + CHAR_RASTER_HEIGHT <= usize::MAX,
        ensures
            final(self).wf(),
            final(self)@ == spec_write_rendered(old(self)@, glyph_view(*glyph)),
            final(self)@.x == old(self)@.x + FONT_WIDTH,
    {
        if self.x_pos + CHAR_RASTER_WIDTH > self.width || self.y_pos + CHAR_RASTER_HEIGHT
            > self.height {
            self.x_pos = self.x_pos + FONT_WIDTH;
            return;
        }
        let xs = self.x_pos;
        let ys = self.y_pos;
        let stride = self.stride;
        let fmt = self.pixel_format;
        let bpp = fmt.bytes_per_pixel();
        let n = self.buffer.len();
        let ghost pre = *self;
        let ghost gv = glyph_view(*glyph);
        let mut r: usize = 0;
        while r < CHAR_RASTER_HEIGHT
            invariant
                r <= CHAR_RASTER_HEIGHT,
                pre.wf(),
                glyph_dims_ok(gv),
                gv == glyph_view(*glyph),
                xs == pre.x_pos,
                ys == pre.y_pos,
                stride == pre.stride,
                fmt == pre.pixel_format,
                bpp == fmt.spec_bytes_per_pixel(),
                n == pre.buffer@.len(),
                xs + CHAR_RASTER_WIDTH <= pre.width,
                ys + CHAR_RASTER_HEIGHT <= pre.height,
                self.width == pre.width,
                self.height == pre.height,
                self.stride == pre.stride,
                self.pixel_format == pre.pixel_format,
                self.x_pos == pre.x_pos,
                self.y_pos == pre.y_pos,
                self.initialized == pre.initialized,
                self.buffer@.len() == n,
                self.buffer@ == blit_cells(
                    pre.buffer@,
                    fmt,
                    gv,
                    xs as nat,
                    ys as nat,
                    stride as nat,
                    (r * CHAR_RASTER_WIDTH) as nat,
                ),
            decreases CHAR_RASTER_HEIGHT - r,
        {
            let row = &glyph[r];
            let mut c: usize = 0;
            while c < CHAR_RASTER_WIDTH
                invariant
                    c <= CHAR_RASTER_WIDTH,
                    r < CHAR_RASTER_HEIGHT,
                    pre.wf(),
                    glyph_dims_ok(gv),
                    gv == glyph_view(*glyph),
                    row@ == gv[r as int],
                    xs == pre.x_pos,
                    ys == pre.y_pos,
                    stride == pre.stride,
                    fmt == pre.pixel_format,
                    bpp == fmt.spec_bytes_per_pixel(),
                    n == pre.buffer@.len(),
                    xs + CHAR_RASTER_WIDTH <= pre.width,
                    ys + CHAR_RASTER_HEIGHT <= pre.height,
                    self.width == pre.width,
                    self.height == pre.height,
                    self.stride == pre.stride,
                    self.pixel_format == pre.pixel_format,
                    self.x_pos == pre.x_pos,
                    self.y_pos == pre.y_pos,
                    self.initialized == pre.initialized,
                    self.buffer@.len() == n,
                    self.buffer@ == blit_cells(
                        pre.buffer@,
                        fmt,
                        gv,
                        xs as nat,
                        ys as nat,
                        stride as nat,
                        (r * CHAR_RASTER_WIDTH + c) as nat,
                    ),
                decreases CHAR_RASTER_WIDTH - c,
            {
                proof {
                    lemma_row_span_in_stride(
                        fmt,
                        xs as nat,
                        stride as nat,
                        pre.width as nat,
                        c as int,
                    );
                    lemma_cell_offset_in_bounds(
                        fmt,
                        xs as nat,
                        ys as nat,
                        stride as nat,
                        pre.width as nat,
                        pre.height as nat,
                        r as int,
                        c as int,
                    );
                    lemma_blit_cells_len(
                        pre.buffer@,
                        fmt,
                        gv,
                        xs as nat,
                        ys as nat,
                        stride as nat,
                        (r * CHAR_RASTER_WIDTH + c) as nat,
                    );
                }
                let idx = (ys + r) * stride + (xs + c) * bpp;
                let intensity = row[c];
                fmt.write_pixel(&mut self.buffer, idx, intensity);
                proof {
                    lemma_cell_number(r as int, c as int);
                    assert(idx as int == cell_offset(
                        fmt,
                        xs as nat,
                        ys as nat,
                        stride as nat,
                        r as int,
                        c as int,
                    ));
                }
                c += 1;
            }
            r += 1;
        }
        self.x_pos = xs + FONT_WIDTH;
        proof {
            assert(self.buffer@ == spec_blit(
                pre.buffer@,
                fmt,
                gv,
                xs as nat,
                ys as nat,
                stride as nat,
            ));
            assert(self@ == spec_write_rendered(pre@, gv));
        }
    }

    /// Writes one character: `'\n'` starts a new line, `'\r'` returns to
    /// the border padding, and any other character wraps to a new line if
    /// it would overrun the right edge, scrolls if its line would overrun
    /// the bottom, and then renders its glyph (the replacement glyph when
    /// the font has none for it).
    pub fn write_char(&mut self, c: char)
        requires
            old(self).wf(),
            old(self).cursor_in_bounds(),
            old(self)@.y + 2 * LINE_HEIGHT <= usize::MAX,
            !(c == '\n' || c == '\r') ==> LINE_HEIGHT <= old(self)@.height,
        ensures
            final(self).wf(),
            final(self).cursor_in_bounds(),
            final(self)@ == spec_write_char(old(self)@, c),
    {
        if c == '\n' {
            self.newline();
        } else if c == '\r' {
            self.carriage_return();
        } else {
            let new_xpos = self.x_pos + FONT_WIDTH;
            if new_xpos >= self.width {
                self.newline();
            }
            let new_ypos = self.y_pos + LINE_HEIGHT;
            if new_ypos > self.height {
                self.scroll();
            }
            let glyph = get_char_raster(c);
            self.write_rendered_char(&glyph);
        }
    }

    /// Writes the characters of a string in order, one by one.
    pub fn write_str(&mut self, s: &str)
        requires
            old(self).wf(),
            old(self).cursor_in_bounds(),
            old(self)@.y + (s@.len() + 2) * LINE_HEIGHT <= usize::MAX,
            LINE_HEIGHT <= old(self)@.height || (forall|i: int|
                0 <= i < s@.len() ==> s@[i] == '\n' || s@[i] == '\r'),
        ensures
            final(self).wf(),
            final(self).cursor_in_bounds(),
            final(self)@ == spec_write_str(old(self)@, s@),
    {
        let ghost pre = *self;
        let n = s.unicode_len();
        let mut i: usize = 0;
        while i < n
            invariant
                i <= n,
                n == s@.len(),
                self.wf(),
                self.cursor_in_bounds(),
                self@ == spec_write_str(pre@, s@.take(i as int)),
                self@.y + (n - i + 2) * LINE_HEIGHT <= usize::MAX,
                self@.height == pre@.height,
                LINE_HEIGHT <= pre@.height || (forall|k: int|
                    0 <= k < s@.len() ==> s@[k] == '\n' || s@[k] == '\r'),
            decreases n - i,
        {
            let c = s.get_char(i);
            let ghost mid = *self;
            proof {
                lemma_write_char_y_bound(self@, c);
                lemma_mul_inequality(2, (n - i + 2) as int, LINE_HEIGHT as int);
            }
            self.write_char(c);
            proof {
                assert(s@.take(i + 1) =~= s@.take(i as int).push(s@[i as int]));
                lemma_write_str_snoc(pre@, s@.take(i as int), c);
                lemma_mul_is_distributive_add_other_way(
                    LINE_HEIGHT as int,
                    (n - i + 1) as int,
                    1,
                );
                assert(self@.y + (n - i + 1) * LINE_HEIGHT <= mid@.y + (n - i + 2) * LINE_HEIGHT);
            }
            i += 1;
        }
        proof {
            assert(s@.take(n as int) =~= s@);
        }
    }
}

/// Builds a ready console in one step, as boot code does: binds the
/// framebuffer described by the descriptor's geometry, then clears it, so
/// that every byte is zero and the cursor rests at the border padding.
pub fn init_framebuffer(buffer: Vec<u8>, width: u32, height: u32, bpp: u8, stride: u32) -> (w:
    FramebufferWriter)
    requires
        PixelFormat::spec_from_bpp(bpp) is Some,
        buffer@.len() == stride * height,
        width * PixelFormat::spec_from_bpp(bpp)->Some_0.spec_bytes_per_pixel() <= stride,
        width + 2 * FONT_WIDTH <= usize::MAX,
    ensures
        w.wf(),
        w.cursor_in_bounds(),
        w@ == (ConsoleView {
            buf: Seq::new((stride * height) as nat, |i: int| 0u8),
            width: width as nat,
            height: height as nat,
            stride: stride as nat,
            format: PixelFormat::spec_from_bpp(bpp)->Some_0,
            x: BORDER_PADDING as nat,
            y: BORDER_PADDING as nat,
        }),
{
    let mut w = FramebufferWriter::new();
    w.init(buffer, width, height, bpp, stride);
    w.clear();
    w
}

impl FramebufferWriter {
    /// The cursor's column in pixels.
    pub fn cursor_x(&self) -> (x: usize)
        ensures
            x == self@.x,
    {
        self.x_pos
    }

    /// The cursor's row in pixels.
    pub fn cursor_y(&self) -> (y: usize)
        ensures
            y == self@.y,
    {
        self.y_pos
    }

    /// Width of the visible area in pixels.
    pub fn width(&self) -> (w: usize)
        ensures
            w == self@.width,
    {
        self.width
    }

    /// Height of the visible area in pixels.
    pub fn height(&self) -> (h: usize)
        ensures
            h == self@.height,
    {
        self.height
    }

    /// Bytes per framebuffer row.
    pub fn stride(&self) -> (s: usize)
        ensures
            s == self@.stride,
    {
        self.stride
    }

    /// The pixel format the writer was initialized with.
    pub fn format(&self) -> (f: PixelFormat)
        ensures
            f == self@.format,
    {
        self.pixel_format
    }

    /// How many bytes the bound framebuffer holds.
    pub fn buffer_len(&self) -> (n: usize)
        ensures
            n == self@.buf.len(),
    {
        self.buffer.len()
    }

    /// The framebuffer byte at offset `i`.
    pub fn byte_at(&self, i: usize) -> (b: u8)
        requires
            i < self@.buf.len(),
        ensures
            b == self@.buf[i as int],
    {
        self.buffer[i]
    }
}

} // verus!
