use vstd::prelude::*;
use crate::geometry::lemma_product_fits;

verus! {

/// The pixels of an image, row by row with no padding, in one of the two
/// layouts that the Kitty protocol takes. The pixels of an image that already
/// had such a layout are borrowed; those of an image that had to be converted
/// are owned.
pub enum ImageData<'i> {
    /// 8-bit RGB pixels, borrowed.
    RgbRef(&'i [u8]),
    /// 8-bit RGBA pixels, borrowed.
    RgbaRef(&'i [u8]),
    /// 8-bit RGB pixels, converted from another layout.
    Rgb(Vec<u8>),
}

impl<'i> ImageData<'i> {
    pub open spec fn spec_bytes(&self) -> Seq<u8> {
        match self {
            ImageData::RgbRef(b) => b@,
            ImageData::RgbaRef(b) => b@,
            ImageData::Rgb(b) => b@,
        }
    }

    pub open spec fn bytes_per_pixel(&self) -> nat {
        match self {
            ImageData::RgbaRef(_) => 4,
            _ => 3,
        }
    }

    /// The protocol's name for the layout: `32` for RGBA, `24` for RGB.
    pub open spec fn format_code(&self) -> &'static str {
        match self {
            ImageData::RgbaRef(_) => "32",
            _ => "24",
        }
    }

    /// The buffer holds exactly the pixels of a `width` by `height` image.
    pub open spec fn wf(&self, width: nat, height: nat) -> bool {
        self.spec_bytes().len() == width * height * self.bytes_per_pixel()
    }

    pub fn kitty_format(&self) -> (r: &'static str)
        ensures
            r == self.format_code(),
    {
        match self {
            ImageData::RgbaRef(_) => "32",
            _ => "24",
        }
    }

    pub fn bytes(&self) -> (r: &[u8])
        ensures
            r@ == self.spec_bytes(),
    {
        match self {
            ImageData::RgbRef(b) => b,
            ImageData::RgbaRef(b) => b,
            ImageData::Rgb(b) => b.as_slice(),
        }
    }

    /// Whether the buffer holds exactly the pixels of a `width` by `height`
    /// image.
    pub fn matches_dimensions(&self, width: u32, height: u32) -> (r: bool)
        ensures
            r == self.wf(width as nat, height as nat),
    {
        let bpp: u64 = match self {
            ImageData::RgbaRef(_) => 4,
            _ => 3,
        };
        let len = self.bytes().len() as u64;
        proof {
            lemma_product_fits(width, height);
        }
        let pixels = width as u64 * height as u64;
        proof {
            vstd::arithmetic::div_mod::lemma_fundamental_div_mod(len as int, bpp as int);
        }
        let r = len % bpp == 0 && len / bpp == pixels;
        proof {
            if r {
                assert(len == pixels * bpp) by (nonlinear_arith)
                    requires
                        len == bpp * (len / bpp) + len % bpp,
                        len % bpp == 0,
                        len / bpp == pixels,
                ;
            } else if len == pixels * bpp {
                vstd::arithmetic::div_mod::lemma_mod_multiples_basic(pixels as int, bpp as int);
                vstd::arithmetic::div_mod::lemma_div_multiples_vanish(pixels as int, bpp as int);
            }
        }
        r
    }
}

} // verus!
