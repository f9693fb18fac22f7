//! Pixel formats and the encoding of a grayscale intensity into the
//! in-memory byte pattern of one pixel.

use vstd::prelude::*;

verus! {

/// The byte-level encoding of one pixel in the framebuffer.
///
/// The set is closed: every supported framebuffer reports one of these four
/// encodings through its bits-per-pixel value.
#[derive(Clone, Copy, Debug, PartialEq, Eq, Structural)]
pub enum PixelFormat {
    /// Three bytes per pixel: red, green, blue.
    RGB888,
    /// Two bytes per pixel: a packed 5/6/5-bit word in little-endian order.
    RGB565,
    /// Four bytes per pixel: red, green, blue, alpha.
    RGBA8888,
    /// One byte per pixel: grayscale intensity.
    Gray8,
}

impl PixelFormat {
    /// How many bytes one pixel occupies in this format.
    pub open spec fn spec_bytes_per_pixel(self) -> nat {
        match self {
            PixelFormat::RGB888 => 3,
            PixelFormat::RGB565 => 2,
            PixelFormat::RGBA8888 => 4,
            PixelFormat::Gray8 => 1,
        }
    }

    /// How many bytes one pixel occupies in this format.
    pub fn bytes_per_pixel(self) -> (n: usize)
        ensures
            n == self.spec_bytes_per_pixel(),
    {
        match self {
            PixelFormat::RGB888 => 3,
            PixelFormat::RGB565 => 2,
            PixelFormat::RGBA8888 => 4,
            PixelFormat::Gray8 => 1,
        }
    }

    /// The pixel format that a bits-per-pixel value selects, or `None` for an
    /// unsupported bit depth.
    pub open spec fn spec_from_bpp(bpp: u8) -> Option<PixelFormat> {
        if bpp == 24 {
            Some(PixelFormat::RGB888)
        } else if bpp == 16 {
            Some(PixelFormat::RGB565)
        } else if bpp == 32 {
            Some(PixelFormat::RGBA8888)
        } else if bpp == 8 {
            Some(PixelFormat::Gray8)
        } else {
            None
        }
    }

    /// Derives the pixel format from a bits-per-pixel value; any bit depth
    /// other than 8, 16, 24 or 32 is an unsupported configuration.
    pub fn from_bpp(bpp: u8) -> (r: Option<PixelFormat>)
        ensures
            r == PixelFormat::spec_from_bpp(bpp),
    {
        if bpp == 24 {
            Some(PixelFormat::RGB888)
        } else if bpp == 16 {
            Some(PixelFormat::RGB565)
        } else if bpp == 32 {
            Some(PixelFormat::RGBA8888)
        } else if bpp == 8 {
            Some(PixelFormat::Gray8)
        } else {
            None
        }
    }
}

/// Every supported bits-per-pixel value selects its documented pixel format,
/// and every other bit depth is rejected rather than defaulted.
pub proof fn lemma_bpp_selects_format()
    ensures
        PixelFormat::spec_from_bpp(8) == Some(PixelFormat::Gray8),
        PixelFormat::spec_from_bpp(16) == Some(PixelFormat::RGB565),
        PixelFormat::spec_from_bpp(24) == Some(PixelFormat::RGB888),
        PixelFormat::spec_from_bpp(32) == Some(PixelFormat::RGBA8888),
        forall|bpp: u8|
            !(bpp == 8 || bpp == 16 || bpp == 24 || bpp == 32)
                ==> PixelFormat::spec_from_bpp(bpp) is None,
{
}

/// The packed 16-bit word that encodes intensity `i` in the RGB565 format:
/// the top 5 bits of `i` as red, the top 6 as green, the top 5 as blue.
pub open spec fn rgb565_word(i: u8) -> u16 {
    (((i as u16) >> 3) << 11) | (((i as u16) >> 2) << 5) | ((i as u16) >> 3)
}

/// The bytes that encode the grayscale intensity `i` as one pixel of
/// format `f`, in memory order.
pub open spec fn pixel_bytes(f: PixelFormat, i: u8) -> Seq<u8> {
    match f {
        PixelFormat::RGB888 => seq![i, i, i],
        PixelFormat::RGB565 => seq![
            (rgb565_word(i) & 0xff) as u8,
            ((rgb565_word(i) >> 8) & 0xff) as u8,
        ],
        PixelFormat::RGBA8888 => seq![i, i, i, 0xff],
        PixelFormat::Gray8 => seq![i],
    }
}

/// A pixel's encoding is exactly as long as the format's byte width.
pub proof fn lemma_pixel_bytes_len(f: PixelFormat, i: u8)
    ensures
        pixel_bytes(f, i).len() == f.spec_bytes_per_pixel(),
{
}

/// `buf` with the bytes at `at .. at + bytes.len()` replaced by `bytes`;
/// every byte outside that window is unchanged.
pub open spec fn write_bytes(buf: Seq<u8>, at: int, bytes: Seq<u8>) -> Seq<u8> {
    Seq::new(
        buf.len(),
        |j: int| if at <= j && j < at + bytes.len() {
            bytes[j - at]
        } else {
            buf[j]
        },
    )
}

impl PixelFormat {
    /// Writes one pixel of intensity `intensity` at byte offset `at` of
    /// `dest`: exactly `bytes_per_pixel` bytes change, every other byte of
    /// `dest` keeps its value.
    pub fn write_pixel(self, dest: &mut Vec<u8>, at: usize, intensity: u8)
        requires
            at + self.spec_bytes_per_pixel() <= old(dest)@.len(),
        ensures
            final(dest)@ == write_bytes(old(dest)@, at as int, pixel_bytes(self, intensity)),
    {
        // Anchors the buffer's length as a machine word for the overflow checks.
        let _len = dest.len();
        match self {
            PixelFormat::RGB888 => {
                dest[at] = intensity;
                dest[at + 1] = intensity;
                dest[at + 2] = intensity;
            },
            PixelFormat::RGB565 => {
                let word: u16 = (((intensity as u16) >> 3) << 11)
                    | (((intensity as u16) >> 2) << 5)
                    | ((intensity as u16) >> 3);
                proof {
                    assert((word & 0xff) < 256 && ((word >> 8) & 0xff) < 256) by (bit_vector);
                }
                dest[at] = (word & 0xff) as u8;
                dest[at + 1] = ((word >> 8) & 0xff) as u8;
            },
            PixelFormat::RGBA8888 => {
                dest[at] = intensity;
                dest[at + 1] = intensity;
                dest[at + 2] = intensity;
                dest[at + 3] = 0xff;
            },
            PixelFormat::Gray8 => {
                dest[at] = intensity;
            },
        }
        proof {
            assert(dest@ =~= write_bytes(old(dest)@, at as int, pixel_bytes(self, intensity)));
        }
    }
}

} // verus!
