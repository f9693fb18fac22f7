//! The mathematical model of the console: a ghost view of the writer's
//! state and the transition that each operation performs on it.

use vstd::prelude::*;
use vstd::arithmetic::div_mod::lemma_fundamental_div_mod_converse;
use vstd::arithmetic::mul::lemma_mul_inequality;
use vstd::arithmetic::mul::lemma_mul_is_distributive_add_other_way;
use vstd::arithmetic::mul::lemma_mul_is_distributive_sub_other_way;
use crate::pixel::PixelFormat;
use crate::pixel::pixel_bytes;
use crate::pixel::lemma_pixel_bytes_len;
use crate::pixel::write_bytes;
use crate::glyph::glyph_for;
use crate::glyph::BORDER_PADDING;
use crate::glyph::CHAR_RASTER_HEIGHT;
use crate::glyph::CHAR_RASTER_WIDTH;
use crate::glyph::FONT_WIDTH;
use crate::glyph::LINE_HEIGHT;

verus! {

/// The state of the console as mathematics: the framebuffer bytes, the
/// geometry it was initialized with, and the cursor position in pixels.
pub ghost struct ConsoleView {
    /// Every byte of the framebuffer, in memory order.
    pub buf: Seq<u8>,
    /// Width of the visible area in pixels.
    pub width: nat,
    /// Height of the visible area in pixels.
    pub height: nat,
    /// Bytes per framebuffer row; at least `width` times the pixel width.
    pub stride: nat,
    /// The byte encoding of one pixel.
    pub format: PixelFormat,
    /// Cursor column in pixels.
    pub x: nat,
    /// Cursor row in pixels.
    pub y: nat,
}

/// The byte offset of the first byte of the pixel that row `r`, column `c`
/// of a glyph blitted at `(xs, ys)` lands on.
pub open spec fn cell_offset(fmt: PixelFormat, xs: nat, ys: nat, stride: nat, r: int, c: int) -> int {
    (ys + r) * stride + (xs + c) * fmt.spec_bytes_per_pixel()
}

/// The framebuffer bytes after the first `n` cells of a glyph, in row-major
/// order, have been written at `(xs, ys)`.
pub open spec fn blit_cells(
    buf: Seq<u8>,
    fmt: PixelFormat,
    glyph: Seq<Seq<u8>>,
    xs: nat,
    ys: nat,
    stride: nat,
    n: nat,
) -> Seq<u8>
    decreases n,
{
    if n == 0 {
        buf
    } else {
        let m = (n - 1) as nat;
        let r = m as int / CHAR_RASTER_WIDTH as int;
        let c = m as int % CHAR_RASTER_WIDTH as int;
        write_bytes(
            blit_cells(buf, fmt, glyph, xs, ys, stride, m),
            cell_offset(fmt, xs, ys, stride, r, c),
            pixel_bytes(fmt, glyph[r][c]),
        )
    }
}

/// The framebuffer bytes after a whole glyph has been blitted at `(xs, ys)`.
pub open spec fn spec_blit(
    buf: Seq<u8>,
    fmt: PixelFormat,
    glyph: Seq<Seq<u8>>,
    xs: nat,
    ys: nat,
    stride: nat,
) -> Seq<u8> {
    blit_cells(buf, fmt, glyph, xs, ys, stride, (CHAR_RASTER_HEIGHT * CHAR_RASTER_WIDTH) as nat)
}

/// Blitting never changes how many bytes the framebuffer holds.
pub proof fn lemma_blit_cells_len(
    buf: Seq<u8>,
    fmt: PixelFormat,
    glyph: Seq<Seq<u8>>,
    xs: nat,
    ys: nat,
    stride: nat,
    n: nat,
)
    ensures
        blit_cells(buf, fmt, glyph, xs, ys, stride, n).len() == buf.len(),
    decreases n,
{
    if n > 0 {
        lemma_blit_cells_len(buf, fmt, glyph, xs, ys, stride, (n - 1) as nat);
    }
}

/// A carriage return moves the cursor back to the border padding.
pub open spec fn spec_carriage_return(v: ConsoleView) -> ConsoleView {
    ConsoleView { x: BORDER_PADDING as nat, ..v }
}

/// A newline moves the cursor down one line height and performs a carriage
/// return.
pub open spec fn spec_newline(v: ConsoleView) -> ConsoleView {
    spec_carriage_return(ConsoleView { y: (v.y + LINE_HEIGHT) as nat, ..v })
}

/// The framebuffer bytes after one scroll: everything from the second text
/// line on moves to the top, and the vacated bottom region is zero-filled.
pub open spec fn scrolled_bytes(buf: Seq<u8>, stride: nat) -> Seq<u8> {
    buf.subrange((LINE_HEIGHT * stride) as int, buf.len() as int)
        + Seq::new((LINE_HEIGHT * stride) as nat, |i: int| 0u8)
}

/// A scroll shifts the contents up one line height and moves the cursor up
/// by the same amount, saturating at zero.
pub open spec fn spec_scroll(v: ConsoleView) -> ConsoleView {
    ConsoleView {
        buf: scrolled_bytes(v.buf, v.stride),
        y: if v.y >= LINE_HEIGHT {
            (v.y - LINE_HEIGHT) as nat
        } else {
            0
        },
        ..v
    }
}

/// Whether a glyph blitted at the cursor lies wholly inside the visible area.
pub open spec fn glyph_fits(v: ConsoleView) -> bool {
    v.x + CHAR_RASTER_WIDTH <= v.width && v.y + CHAR_RASTER_HEIGHT <= v.height
}

/// Rendering a glyph: blit it if it fits, drop it whole otherwise; either
/// way the cursor advances by the font advance width.
pub open spec fn spec_write_rendered(v: ConsoleView, glyph: Seq<Seq<u8>>) -> ConsoleView {
    let drawn = if glyph_fits(v) {
        ConsoleView { buf: spec_blit(v.buf, v.format, glyph, v.x, v.y, v.stride), ..v }
    } else {
        v
    };
    ConsoleView { x: (drawn.x + FONT_WIDTH) as nat, ..drawn }
}

/// What writing one character does to the console: newline and carriage
/// return move the cursor; any other character first wraps if it would
/// overrun the right edge, then scrolls if the line would overrun the
/// bottom, and finally renders its glyph.
pub open spec fn spec_write_char(v: ConsoleView, c: char) -> ConsoleView {
    if c == '\n' {
        spec_newline(v)
    } else if c == '\r' {
        spec_carriage_return(v)
    } else {
        let wrapped = if v.x + FONT_WIDTH >= v.width {
            spec_newline(v)
        } else {
            v
        };
        let scrolled = if wrapped.y + LINE_HEIGHT > wrapped.height {
            spec_scroll(wrapped)
        } else {
            wrapped
        };
        spec_write_rendered(scrolled, glyph_for(c))
    }
}

/// Writing a string writes its characters one by one, in order.
pub open spec fn spec_write_str(v: ConsoleView, s: Seq<char>) -> ConsoleView
    decreases s.len(),
{
    if s.len() == 0 {
        v
    } else {
        spec_write_str(spec_write_char(v, s[0]), s.drop_first())
    }
}

/// Writing one more character at the end of a string continues from the
/// state the string left behind.
pub proof fn lemma_write_str_snoc(v: ConsoleView, s: Seq<char>, c: char)
    ensures
        spec_write_str(v, s.push(c)) == spec_write_char(spec_write_str(v, s), c),
    decreases s.len(),
{
    let t = s.push(c);
    assert(t.len() == s.len() + 1);
    if s.len() == 0 {
        assert(t[0] == c);
        assert(t.drop_first() =~= Seq::<char>::empty());
        assert(spec_write_str(v, t) == spec_write_str(spec_write_char(v, c), t.drop_first()));
        assert(spec_write_str(spec_write_char(v, c), t.drop_first()) == spec_write_char(v, c));
        assert(spec_write_str(v, s) == v);
    } else {
        assert(t[0] == s[0]);
        assert(t.drop_first() =~= s.drop_first().push(c));
        assert(spec_write_str(v, t) == spec_write_str(spec_write_char(v, s[0]), t.drop_first()));
        lemma_write_str_snoc(spec_write_char(v, s[0]), s.drop_first(), c);
        assert(spec_write_str(v, s) == spec_write_str(spec_write_char(v, s[0]), s.drop_first()));
    }
}

/// No single character moves the cursor down by more than one line height.
pub proof fn lemma_write_char_y_bound(v: ConsoleView, c: char)
    ensures
        spec_write_char(v, c).y <= v.y + LINE_HEIGHT,
{
}

/// Writing a newline moves the cursor down by exactly one line height and
/// back to the border padding, whatever column it was in; no pixel changes.
pub proof fn lemma_newline_resets_column(v: ConsoleView)
    ensures
        spec_write_char(v, '\n').y == v.y + LINE_HEIGHT,
        spec_write_char(v, '\n').x == BORDER_PADDING,
        spec_write_char(v, '\n').buf == v.buf,
{
}

/// A character that would overrun the right edge wraps first: it is rendered
/// with the cursor at the border padding of the next line, never clipped at
/// the edge of the line it overran.
pub proof fn lemma_wrap_before_render(v: ConsoleView, c: char)
    requires
        c != '\n',
        c != '\r',
        v.x + FONT_WIDTH >= v.width,
    ensures
        ({
            let wrapped = spec_newline(v);
            let scrolled = if wrapped.y + LINE_HEIGHT > wrapped.height {
                spec_scroll(wrapped)
            } else {
                wrapped
            };
            &&& scrolled.x == BORDER_PADDING
            &&& spec_write_char(v, c) == spec_write_rendered(scrolled, glyph_for(c))
        }),
{
}

/// One scroll moves every kept byte up by exactly one line height of bytes,
/// zero-fills the vacated bottom region, and moves the cursor up one line
/// height, saturating at zero. Content that was at pixel line `h` is
/// afterwards at pixel line `h` minus the line height.
pub proof fn lemma_scroll_shifts_content(v: ConsoleView)
    requires
        v.buf.len() == v.stride * v.height,
        LINE_HEIGHT <= v.height,
    ensures
        spec_scroll(v).buf.len() == v.buf.len(),
        forall|i: int|
            0 <= i < (v.height - LINE_HEIGHT) * v.stride
                ==> spec_scroll(v).buf[i] == v.buf[i + LINE_HEIGHT * v.stride],
        forall|i: int|
            (v.height - LINE_HEIGHT) * v.stride <= i < v.buf.len() ==> spec_scroll(v).buf[i] == 0,
        spec_scroll(v).y == if v.y >= LINE_HEIGHT {
            v.y - LINE_HEIGHT
        } else {
            0
        },
        spec_scroll(v).x == v.x,
{
    lemma_mul_inequality(LINE_HEIGHT as int, v.height as int, v.stride as int);
    assert((v.height - LINE_HEIGHT) * v.stride == v.height * v.stride - LINE_HEIGHT * v.stride) by {
        lemma_mul_is_distributive_sub_other_way(
            v.stride as int,
            v.height as int,
            LINE_HEIGHT as int,
        );
    }
    assert(v.stride * v.height == v.height * v.stride) by {
        vstd::arithmetic::mul::lemma_mul_is_commutative(v.stride as int, v.height as int);
    }
}

/// A glyph whose bounding box would overrun the visible area is dropped
/// whole: no byte of the framebuffer changes, yet the cursor still advances
/// by the font advance width.
pub proof fn lemma_oversize_glyph_dropped(v: ConsoleView, glyph: Seq<Seq<u8>>)
    requires
        !glyph_fits(v),
    ensures
        spec_write_rendered(v, glyph).buf == v.buf,
        spec_write_rendered(v, glyph).x == v.x + FONT_WIDTH,
        spec_write_rendered(v, glyph).y == v.y,
{
}

/// Whether byte `i` belongs to the pixel that glyph row `r`, column `c`
/// lands on when blitted at `(xs, ys)`.
pub open spec fn blit_covers(
    fmt: PixelFormat,
    xs: nat,
    ys: nat,
    stride: nat,
    r: int,
    c: int,
    i: int,
) -> bool {
    cell_offset(fmt, xs, ys, stride, r, c) <= i < cell_offset(fmt, xs, ys, stride, r, c)
        + fmt.spec_bytes_per_pixel()
}

/// Distinct cells of a blit land on disjoint byte ranges: the pixels of
/// cell `(r1, c1)` and cell `(r2, c2)` can only overlap when the cells
/// coincide. Holds because a whole glyph row fits inside one stride.
pub proof fn lemma_cell_offsets_disjoint(
    fmt: PixelFormat,
    xs: nat,
    ys: nat,
    stride: nat,
    width: nat,
    r1: int,
    c1: int,
    r2: int,
    c2: int,
)
    requires
        xs + CHAR_RASTER_WIDTH <= width,
        width * fmt.spec_bytes_per_pixel() <= stride,
        0 <= r1,
        0 <= c1 < CHAR_RASTER_WIDTH,
        0 <= r2,
        0 <= c2 < CHAR_RASTER_WIDTH,
        !(r1 == r2 && c1 == c2),
    ensures
        cell_offset(fmt, xs, ys, stride, r1, c1) + fmt.spec_bytes_per_pixel() <= cell_offset(
            fmt,
            xs,
            ys,
            stride,
            r2,
            c2,
        ) || cell_offset(fmt, xs, ys, stride, r2, c2) + fmt.spec_bytes_per_pixel() <= cell_offset(
            fmt,
            xs,
            ys,
            stride,
            r1,
            c1,
        ),
{
    let bpp = fmt.spec_bytes_per_pixel() as int;
    lemma_row_span_in_stride(fmt, xs, stride, width, c1);
    lemma_row_span_in_stride(fmt, xs, stride, width, c2);
    if r1 == r2 {
        if c1 < c2 {
            lemma_mul_is_distributive_add_other_way(bpp, (xs + c1) as int, 1);
            lemma_mul_inequality((xs + c1 + 1) as int, (xs + c2) as int, bpp);
        } else {
            lemma_mul_is_distributive_add_other_way(bpp, (xs + c2) as int, 1);
            lemma_mul_inequality((xs + c2 + 1) as int, (xs + c1) as int, bpp);
        }
    } else if r1 < r2 {
        lemma_mul_is_distributive_add_other_way(stride as int, (ys + r1) as int, 1);
        lemma_mul_inequality((ys + r1 + 1) as int, (ys + r2) as int, stride as int);
    } else {
        lemma_mul_is_distributive_add_other_way(stride as int, (ys + r2) as int, 1);
        lemma_mul_inequality((ys + r2 + 1) as int, (ys + r1) as int, stride as int);
    }
}

/// Within one blitted row, the bytes of every cell lie inside the row's
/// stride: `(xs + c) * bpp + bpp <= stride`.
pub proof fn lemma_row_span_in_stride(fmt: PixelFormat, xs: nat, stride: nat, width: nat, c: int)
    requires
        xs + CHAR_RASTER_WIDTH <= width,
        width * fmt.spec_bytes_per_pixel() <= stride,
        0 <= c < CHAR_RASTER_WIDTH,
    ensures
        (xs + c) * fmt.spec_bytes_per_pixel() + fmt.spec_bytes_per_pixel() <= stride,
        (xs + c) * fmt.spec_bytes_per_pixel() >= 0,
{
    let bpp = fmt.spec_bytes_per_pixel() as int;
    lemma_mul_is_distributive_add_other_way(bpp, (xs + c) as int, 1);
    lemma_mul_inequality((xs + c + 1) as int, width as int, bpp);
}

/// The first byte of every blitted cell lies inside the framebuffer, with
/// room for the whole pixel after it.
pub proof fn lemma_cell_offset_in_bounds(
    fmt: PixelFormat,
    xs: nat,
    ys: nat,
    stride: nat,
    width: nat,
    height: nat,
    r: int,
    c: int,
)
    requires
        xs + CHAR_RASTER_WIDTH <= width,
        ys + CHAR_RASTER_HEIGHT <= height,
        width * fmt.spec_bytes_per_pixel() <= stride,
        0 <= r < CHAR_RASTER_HEIGHT,
        0 <= c < CHAR_RASTER_WIDTH,
    ensures
        cell_offset(fmt, xs, ys, stride, r, c) >= 0,
        cell_offset(fmt, xs, ys, stride, r, c) + fmt.spec_bytes_per_pixel()
            <= stride * height,
{
    lemma_row_span_in_stride(fmt, xs, stride, width, c);
    lemma_mul_is_distributive_add_other_way(stride as int, (ys + r) as int, 1);
    lemma_mul_inequality((ys + r + 1) as int, height as int, stride as int);
    vstd::arithmetic::mul::lemma_mul_is_commutative(stride as int, height as int);
    vstd::arithmetic::mul::lemma_mul_nonnegative((ys + r) as int, stride as int);
}

/// Pointwise reading of a partial blit: every already-written cell holds
/// its glyph pixel's encoding, and every byte no written cell covers still
/// holds its old value.
proof fn lemma_blit_cells_pointwise(
    buf: Seq<u8>,
    fmt: PixelFormat,
    glyph: Seq<Seq<u8>>,
    xs: nat,
    ys: nat,
    stride: nat,
    width: nat,
    height: nat,
    n: nat,
)
    requires
        buf.len() == stride * height,
        xs + CHAR_RASTER_WIDTH <= width,
        ys + CHAR_RASTER_HEIGHT <= height,
        width * fmt.spec_bytes_per_pixel() <= stride,
        n <= CHAR_RASTER_HEIGHT * CHAR_RASTER_WIDTH,
    ensures
        forall|r: int, c: int, k: int|
            0 <= r && 0 <= c < CHAR_RASTER_WIDTH && 0 <= k < fmt.spec_bytes_per_pixel() && r
                * CHAR_RASTER_WIDTH + c < n ==> blit_cells(buf, fmt, glyph, xs, ys, stride, n)[
                cell_offset(fmt, xs, ys, stride, r, c) + k] == #[trigger] pixel_bytes(
                fmt,
                glyph[r][c],
            )[k],
        forall|i: int|
            0 <= i < buf.len() && (forall|r: int, c: int|
                0 <= r && 0 <= c < CHAR_RASTER_WIDTH && r * CHAR_RASTER_WIDTH + c < n
                    ==> !blit_covers(fmt, xs, ys, stride, r, c, i)) ==> #[trigger] blit_cells(
                buf,
                fmt,
                glyph,
                xs,
                ys,
                stride,
                n,
            )[i] == buf[i],
    decreases n,
{
    if n > 0 {
        let m = (n - 1) as nat;
        lemma_blit_cells_pointwise(buf, fmt, glyph, xs, ys, stride, width, height, m);
        let r0 = m as int / CHAR_RASTER_WIDTH as int;
        let c0 = m as int % CHAR_RASTER_WIDTH as int;
        vstd::arithmetic::div_mod::lemma_mod_bound(m as int, CHAR_RASTER_WIDTH as int);
        vstd::arithmetic::div_mod::lemma_div_pos_is_pos(m as int, CHAR_RASTER_WIDTH as int);
        vstd::arithmetic::div_mod::lemma_fundamental_div_mod(m as int, CHAR_RASTER_WIDTH as int);
        assert(r0 * CHAR_RASTER_WIDTH + c0 == m);
        if r0 >= CHAR_RASTER_HEIGHT {
            lemma_mul_inequality(
                CHAR_RASTER_HEIGHT as int,
                r0,
                CHAR_RASTER_WIDTH as int,
            );
            assert(false);
        }
        let prev = blit_cells(buf, fmt, glyph, xs, ys, stride, m);
        let o = cell_offset(fmt, xs, ys, stride, r0, c0);
        let bytes = pixel_bytes(fmt, glyph[r0][c0]);
        lemma_pixel_bytes_len(fmt, glyph[r0][c0]);
        lemma_blit_cells_len(buf, fmt, glyph, xs, ys, stride, m);
        lemma_cell_offset_in_bounds(fmt, xs, ys, stride, width, height, r0, c0);
        assert(blit_cells(buf, fmt, glyph, xs, ys, stride, n) == write_bytes(prev, o, bytes));
        assert forall|r: int, c: int, k: int|
            0 <= r && 0 <= c < CHAR_RASTER_WIDTH && 0 <= k < fmt.spec_bytes_per_pixel() && r
                * CHAR_RASTER_WIDTH + c < n implies blit_cells(buf, fmt, glyph, xs, ys, stride, n)[
            cell_offset(fmt, xs, ys, stride, r, c) + k] == #[trigger] pixel_bytes(
            fmt,
            glyph[r][c],
        )[k] by {
            lemma_cell_number(r, c);
            if r * CHAR_RASTER_WIDTH + c == m {
                assert(r == r0 && c == c0);
            } else {
                lemma_cell_offsets_disjoint(fmt, xs, ys, stride, width, r, c, r0, c0);
                lemma_cell_offset_in_bounds(fmt, xs, ys, stride, width, height, r, c);
            }
        }
        assert forall|i: int|
            0 <= i < buf.len() && (forall|r: int, c: int|
                0 <= r && 0 <= c < CHAR_RASTER_WIDTH && r * CHAR_RASTER_WIDTH + c < n
                    ==> !blit_covers(fmt, xs, ys, stride, r, c, i)) implies #[trigger] blit_cells(
            buf,
            fmt,
            glyph,
            xs,
            ys,
            stride,
            n,
        )[i] == buf[i] by {
            assert(!blit_covers(fmt, xs, ys, stride, r0, c0, i));
        }
    }
}

/// Pointwise reading of a whole blit, the natural statement of the glyph
/// blit: for every glyph row `r` and column `c`, the `bytes_per_pixel`
/// bytes at offset `(ys + r) * stride + (xs + c) * bytes_per_pixel` hold
/// that pixel's encoding, and every byte of the buffer that no glyph cell
/// covers is unchanged.
pub proof fn lemma_blit_pointwise(
    buf: Seq<u8>,
    fmt: PixelFormat,
    glyph: Seq<Seq<u8>>,
    xs: nat,
    ys: nat,
    stride: nat,
    width: nat,
    height: nat,
)
    requires
        buf.len() == stride * height,
        xs + CHAR_RASTER_WIDTH <= width,
        ys + CHAR_RASTER_HEIGHT <= height,
        width * fmt.spec_bytes_per_pixel() <= stride,
    ensures
        forall|r: int, c: int, k: int|
            0 <= r < CHAR_RASTER_HEIGHT && 0 <= c < CHAR_RASTER_WIDTH && 0 <= k
                < fmt.spec_bytes_per_pixel() ==> spec_blit(buf, fmt, glyph, xs, ys, stride)[
                cell_offset(fmt, xs, ys, stride, r, c) + k] == #[trigger] pixel_bytes(
                fmt,
                glyph[r][c],
            )[k],
        forall|i: int|
            0 <= i < buf.len() && (forall|r: int, c: int|
                0 <= r < CHAR_RASTER_HEIGHT && 0 <= c < CHAR_RASTER_WIDTH ==> !blit_covers(
                    fmt,
                    xs,
                    ys,
                    stride,
                    r,
                    c,
                    i,
                )) ==> #[trigger] spec_blit(buf, fmt, glyph, xs, ys, stride)[i] == buf[i],
{
    let total = (CHAR_RASTER_HEIGHT * CHAR_RASTER_WIDTH) as nat;
    lemma_blit_cells_pointwise(buf, fmt, glyph, xs, ys, stride, width, height, total);
    assert forall|r: int, c: int, k: int|
        0 <= r < CHAR_RASTER_HEIGHT && 0 <= c < CHAR_RASTER_WIDTH && 0 <= k
            < fmt.spec_bytes_per_pixel() implies spec_blit(buf, fmt, glyph, xs, ys, stride)[
        cell_offset(fmt, xs, ys, stride, r, c) + k] == #[trigger] pixel_bytes(
        fmt,
        glyph[r][c],
    )[k] by {
        lemma_mul_is_distributive_add_other_way(CHAR_RASTER_WIDTH as int, r, 1);
        lemma_mul_inequality((r + 1) as int, CHAR_RASTER_HEIGHT as int, CHAR_RASTER_WIDTH as int);
    }
    assert forall|i: int|
        0 <= i < buf.len() && (forall|r: int, c: int|
            0 <= r < CHAR_RASTER_HEIGHT && 0 <= c < CHAR_RASTER_WIDTH ==> !blit_covers(
                fmt,
                xs,
                ys,
                stride,
                r,
                c,
                i,
            )) implies #[trigger] spec_blit(buf, fmt, glyph, xs, ys, stride)[i] == buf[i] by {
        assert forall|r: int, c: int|
            0 <= r && 0 <= c < CHAR_RASTER_WIDTH && r * CHAR_RASTER_WIDTH + c
                < total implies !blit_covers(fmt, xs, ys, stride, r, c, i) by {
            if r >= CHAR_RASTER_HEIGHT {
                lemma_mul_inequality(
                    CHAR_RASTER_HEIGHT as int,
                    r,
                    CHAR_RASTER_WIDTH as int,
                );
            }
        }
    }
}

/// Row-major cell numbering is a bijection: cell number `r * width + c`
/// decodes back to row `r`, column `c`.
pub proof fn lemma_cell_number(r: int, c: int)
    requires
        0 <= r,
        0 <= c < CHAR_RASTER_WIDTH,
    ensures
        (r * CHAR_RASTER_WIDTH + c) / CHAR_RASTER_WIDTH as int == r,
        (r * CHAR_RASTER_WIDTH + c) % CHAR_RASTER_WIDTH as int == c,
{
    lemma_fundamental_div_mod_converse(
        r * CHAR_RASTER_WIDTH + c,
        CHAR_RASTER_WIDTH as int,
        r,
        c,
    );
}

} // verus!
