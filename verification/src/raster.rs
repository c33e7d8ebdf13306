//! Images as plain pixel buffers.

use vstd::prelude::*;

verus! {

/// What a grey image is: its size and one byte for each pixel, row by row.
pub struct GrayView {
    pub width: nat,
    pub height: nat,
    pub pixels: Seq<u8>,
}

impl GrayView {
    /// There is exactly one byte for each pixel.
    pub open spec fn wf(self) -> bool {
        self.pixels.len() == self.width * self.height
    }

    /// The pixel in column `x` of row `y`.
    pub open spec fn at(self, x: int, y: int) -> u8 {
        self.pixels[y * self.width + x]
    }

    /// Whether the image has no pixels.
    pub open spec fn is_empty(self) -> bool {
        self.width == 0 || self.height == 0
    }
}

/// What a colour image is: its size and four bytes for each pixel (red, green,
/// blue, alpha), row by row.
pub struct RgbaView {
    pub width: nat,
    pub height: nat,
    pub data: Seq<u8>,
}

impl RgbaView {
    /// There are exactly four bytes for each pixel.
    pub open spec fn wf(self) -> bool {
        self.data.len() == 4 * (self.width * self.height)
    }

    /// Channel `c` (0 red, 1 green, 2 blue, 3 alpha) of the pixel in column
    /// `x` of row `y`.
    pub open spec fn channel(self, x: int, y: int, c: int) -> u8 {
        self.data[4 * (y * self.width + x) + c]
    }

    /// Whether the image has no pixels.
    pub open spec fn is_empty(self) -> bool {
        self.width == 0 || self.height == 0
    }
}

/// A single-channel image.
#[derive(Debug, PartialEq, Eq)]
pub struct GrayImage {
    width: u32,
    height: u32,
    pixels: Vec<u8>,
}

impl View for GrayImage {
    type V = GrayView;

    closed spec fn view(&self) -> GrayView {
        GrayView { width: self.width as nat, height: self.height as nat, pixels: self.pixels@ }
    }
}

impl Clone for GrayImage {
    fn clone(&self) -> (r: Self)
        ensures
            r@ == self@,
    {
        proof {
            use_type_invariant(self);
        }
        GrayImage { width: self.width, height: self.height, pixels: self.pixels.clone() }
    }
}

impl GrayImage {
    #[verifier::type_invariant]
    spec fn inv(self) -> bool {
        self.pixels@.len() == self.width * self.height
    }

    /// An image from its pixels, if there is one byte for each pixel.
    pub fn from_raw(width: u32, height: u32, pixels: Vec<u8>) -> (r: Option<Self>)
        ensures
            r is Some <==> pixels@.len() == width * height,
            r is Some ==> r->0@ == (GrayView {
                width: width as nat,
                height: height as nat,
                pixels: pixels@,
            }),
    {
        if pixels.len() as u64 == area(width, height) {
            Some(GrayImage { width, height, pixels })
        } else {
            None
        }
    }

    /// An image of one colour.
    pub fn filled(width: u32, height: u32, value: u8) -> (r: Self)
        requires
            width * height <= usize::MAX,
        ensures
            r@ == (GrayView {
                width: width as nat,
                height: height as nat,
                pixels: Seq::new((width * height) as nat, |i: int| value),
            }),
    {
        let total: usize = area(width, height) as usize;
        let mut pixels: Vec<u8> = Vec::new();
        let mut i: usize = 0;
        while i < total
            invariant
                i <= total,
                pixels@ == Seq::new(i as nat, |k: int| value),
            decreases total - i,
        {
            pixels.push(value);
            i += 1;
            assert(pixels@ =~= Seq::new(i as nat, |k: int| value));
        }
        GrayImage { width, height, pixels }
    }

    /// A black image.
    pub fn new(width: u32, height: u32) -> (r: Self)
        requires
            width * height <= usize::MAX,
        ensures
            r@ == (GrayView {
                width: width as nat,
                height: height as nat,
                pixels: Seq::new((width * height) as nat, |i: int| 0u8),
            }),
    {
        Self::filled(width, height, 0)
    }

    pub fn width(&self) -> (w: u32)
        ensures
            w == self@.width,
    {
        self.width
    }

    pub fn height(&self) -> (h: u32)
        ensures
            h == self@.height,
    {
        self.height
    }

    pub fn dimensions(&self) -> (d: (u32, u32))
        ensures
            d.0 == self@.width,
            d.1 == self@.height,
    {
        (self.width, self.height)
    }

    /// The pixels, row by row.
    pub fn pixels(&self) -> (p: &Vec<u8>)
        ensures
            p@ == self@.pixels,
            self@.wf(),
    {
        proof {
            use_type_invariant(self);
        }
        &self.pixels
    }

    /// The pixels, row by row, leaving the image behind.
    pub fn into_raw(self) -> (p: Vec<u8>)
        ensures
            p@ == self@.pixels,
            self@.wf(),
    {
        proof {
            use_type_invariant(&self);
        }
        self.pixels
    }

    /// The pixel in column `x` of row `y`, if the image has one there.
    pub fn get_pixel(&self, x: u32, y: u32) -> (p: Option<u8>)
        ensures
            p == if x < self@.width && y < self@.height {
                Some(self@.at(x as int, y as int))
            } else {
                None
            },
    {
        proof {
            use_type_invariant(self);
        }
        if x < self.width && y < self.height {
            let len: usize = self.pixels.len();
            proof {
                lemma_index_in_range(x as int, y as int, self.width as int, self.height as int);
                assert(y * self.width + x < len);
            }
            let i: usize = (y as usize) * (self.width as usize) + (x as usize);
            Some(self.pixels[i])
        } else {
            None
        }
    }

    /// Sets the pixel in column `x` of row `y`; an image without such a pixel
    /// stays as it is.
    pub fn put_pixel(&mut self, x: u32, y: u32, value: u8)
        ensures
            final(self)@ == if x < old(self)@.width && y < old(self)@.height {
                GrayView {
                    pixels: old(self)@.pixels.update(y * old(self)@.width + x, value),
                    ..old(self)@
                }
            } else {
                old(self)@
            },
    {
        proof {
            use_type_invariant(&*self);
        }
        if x < self.width && y < self.height {
            let len: usize = self.pixels.len();
            proof {
                lemma_index_in_range(x as int, y as int, self.width as int, self.height as int);
                assert(y * self.width + x < len);
            }
            let i: usize = (y as usize) * (self.width as usize) + (x as usize);
            let mut taken = GrayImage { width: 0, height: 0, pixels: Vec::new() };
            core::mem::swap(self, &mut taken);
            let GrayImage { width, height, mut pixels } = taken;
            pixels.set(i, value);
            *self = GrayImage { width, height, pixels };
        }
    }

    pub fn is_empty(&self) -> (b: bool)
        ensures
            b == self@.is_empty(),
    {
        self.width == 0 || self.height == 0
    }
}

/// A colour image with an alpha channel.
#[derive(Debug, PartialEq, Eq)]
pub struct RgbaImage {
    width: u32,
    height: u32,
    data: Vec<u8>,
}

impl View for RgbaImage {
    type V = RgbaView;

    closed spec fn view(&self) -> RgbaView {
        RgbaView { width: self.width as nat, height: self.height as nat, data: self.data@ }
    }
}

impl Clone for RgbaImage {
    fn clone(&self) -> (r: Self)
        ensures
            r@ == self@,
    {
        proof {
            use_type_invariant(self);
        }
        RgbaImage { width: self.width, height: self.height, data: self.data.clone() }
    }
}

impl RgbaImage {
    #[verifier::type_invariant]
    spec fn inv(self) -> bool {
        self.data@.len() == 4 * (self.width * self.height)
    }

    /// An image from its bytes, if there are four for each pixel.
    pub fn from_raw(width: u32, height: u32, data: Vec<u8>) -> (r: Option<Self>)
        ensures
            r is Some <==> data@.len() == 4 * (width * height),
            r is Some ==> r->0@ == (RgbaView {
                width: width as nat,
                height: height as nat,
                data: data@,
            }),
    {
        if data.len() as u128 == 4 * (area(width, height) as u128) {
            Some(RgbaImage { width, height, data })
        } else {
            None
        }
    }

    /// An image of one colour.
    pub fn filled(width: u32, height: u32, rgba: [u8; 4]) -> (r: Self)
        requires
            4 * (width * height) <= usize::MAX,
        ensures
            r@.width == width,
            r@.height == height,
            r@.wf(),
            forall|i: int| 0 <= i < 4 * (width * height) ==> #[trigger] r@.data[i] == rgba[i % 4],
    {
        let total: usize = (4 * (area(width, height) as u128)) as usize;
        let mut data: Vec<u8> = Vec::new();
        let mut i: usize = 0;
        while i < total
            invariant
                i <= total,
                data@.len() == i,
                forall|k: int| 0 <= k < i ==> #[trigger] data@[k] == rgba[k % 4],
            decreases total - i,
        {
            data.push(rgba[i % 4]);
            i += 1;
        }
        RgbaImage { width, height, data }
    }

    pub fn width(&self) -> (w: u32)
        ensures
            w == self@.width,
    {
        self.width
    }

    pub fn height(&self) -> (h: u32)
        ensures
            h == self@.height,
    {
        self.height
    }

    pub fn dimensions(&self) -> (d: (u32, u32))
        ensures
            d.0 == self@.width,
            d.1 == self@.height,
    {
        (self.width, self.height)
    }

    /// The bytes, pixel by pixel and row by row.
    pub fn data(&self) -> (d: &Vec<u8>)
        ensures
            d@ == self@.data,
            self@.wf(),
    {
        proof {
            use_type_invariant(self);
        }
        &self.data
    }

    pub fn is_empty(&self) -> (b: bool)
        ensures
            b == self@.is_empty(),
    {
        self.width == 0 || self.height == 0
    }
}

/// The number of pixels of an image of the given size.
pub fn area(width: u32, height: u32) -> (a: u64)
    ensures
        a == width * height,
{
    assert(width * height <= 0xffff_ffff * 0xffff_ffff) by (nonlinear_arith)
        requires
            0 <= width <= 0xffff_ffff,
            0 <= height <= 0xffff_ffff,
    ;
    (width as u64) * (height as u64)
}

/// The position of pixel `(x, y)` in a row-by-row buffer lies in the buffer.
pub proof fn lemma_index_in_range(x: int, y: int, width: int, height: int)
    requires
        0 <= x < width,
        0 <= y < height,
    ensures
        0 <= y * width,
        0 <= y * width + x < width * height,
{
    assert(y * width <= (height - 1) * width) by (nonlinear_arith)
        requires
            0 <= y <= height - 1,
            0 <= width,
    ;
    assert((height - 1) * width + width == width * height) by (nonlinear_arith);
    assert(0 <= y * width) by (nonlinear_arith)
        requires
            0 <= y,
            0 <= width,
    ;
}

} // verus!
