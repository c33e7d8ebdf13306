//! Cleaning a captured image up for text recognition.

use vstd::multiset::Multiset;
use vstd::prelude::*;
use vstd::string::*;
use crate::raster::{area, lemma_index_in_range, GrayImage, GrayView, RgbaImage, RgbaView};

verus! {

/// Why an image could not be prepared.
#[derive(Debug, PartialEq)]
pub enum PreprocessError {
    InvalidImage(String),
    ProcessingFailed(String),
    EmptyImage,
}

/// What a preprocessing error holds.
pub enum PreprocessErrorView {
    InvalidImage(Seq<char>),
    ProcessingFailed(Seq<char>),
    EmptyImage,
}

impl View for PreprocessError {
    type V = PreprocessErrorView;

    open spec fn view(&self) -> PreprocessErrorView {
        match self {
            PreprocessError::InvalidImage(msg) => PreprocessErrorView::InvalidImage(msg@),
            PreprocessError::ProcessingFailed(msg) => PreprocessErrorView::ProcessingFailed(msg@),
            PreprocessError::EmptyImage => PreprocessErrorView::EmptyImage,
        }
    }
}

impl PreprocessErrorView {
    /// The message of the error, as text.
    pub open spec fn message(self) -> Seq<char> {
        match self {
            PreprocessErrorView::InvalidImage(msg) => "Invalid image: "@ + msg,
            PreprocessErrorView::ProcessingFailed(msg) => "Processing failed: "@ + msg,
            PreprocessErrorView::EmptyImage => "Image is empty"@,
        }
    }
}

impl PreprocessError {
    /// The message of the error.
    pub fn to_string(&self) -> (r: String)
        ensures
            r@ == self@.message(),
    {
        match self {
            PreprocessError::InvalidImage(msg) => String::from_str("Invalid image: ").concat(
                msg.as_str(),
            ),
            PreprocessError::ProcessingFailed(msg) => String::from_str(
                "Processing failed: ",
            ).concat(msg.as_str()),
            PreprocessError::EmptyImage => String::from_str("Image is empty"),
        }
    }
}

/// One, as a factor in thousandths.
pub const UNIT_FACTOR: u32 = 1000;

/// How an image is prepared. The two factors are in thousandths: 1000 leaves
/// the image as it is.
#[derive(Debug, Clone, Copy, PartialEq, Eq, Structural)]
pub struct PreprocessConfig {
    /// The value above which a pixel turns white, where one value serves the
    /// whole image.
    pub threshold: u8,
    /// Whether each pixel is held against the mean of its surroundings
    /// instead.
    pub use_adaptive_threshold: bool,
    /// The side of the surroundings, in pixels; an odd number.
    pub adaptive_block_size: u32,
    /// How far below the mean of its surroundings a pixel still turns white.
    pub adaptive_c: i32,
    /// Whether noise is smoothed out.
    pub denoise: bool,
    /// Whether black and white change places at the end.
    pub invert: bool,
    /// By how much the image is enlarged, in thousandths.
    pub scale_factor: u32,
    /// By how much the contrast is raised, in thousandths.
    pub contrast_factor: i32,
}

/// The settings for small text on a game screen.
pub open spec fn default_preprocess_config() -> PreprocessConfig {
    PreprocessConfig {
        threshold: 127,
        use_adaptive_threshold: true,
        adaptive_block_size: 11,
        adaptive_c: 2,
        denoise: true,
        invert: false,
        scale_factor: 2000,
        contrast_factor: 1500,
    }
}

impl Default for PreprocessConfig {
    fn default() -> (r: Self)
        ensures
            r == default_preprocess_config(),
    {
        PreprocessConfig {
            threshold: 127,
            use_adaptive_threshold: true,
            adaptive_block_size: 11,
            adaptive_c: 2,
            denoise: true,
            invert: false,
            scale_factor: 2000,
            contrast_factor: 1500,
        }
    }
}

/// The brightness of a colour: 2126 parts red, 7152 parts green and 722 parts
/// blue of 10000, rounded down.
pub open spec fn luma(red: u8, green: u8, blue: u8) -> u8 {
    ((2126 * red + 7152 * green + 722 * blue) / 10000) as u8
}

/// The brightness of each pixel of a colour image.
pub open spec fn grayscale_of(img: RgbaView) -> GrayView {
    GrayView {
        width: img.width,
        height: img.height,
        pixels: Seq::new(
            img.width * img.height,
            |i: int| luma(img.data[4 * i], img.data[4 * i + 1], img.data[4 * i + 2]),
        ),
    }
}

/// `image::imageops::grayscale` on an image of four channels of one byte: each
/// pixel's brightness, with the weights of `luma`, in an image of the same
/// size; the alpha channel plays no part. The call is made for images with
/// pixels only: of those the four bytes for each pixel are held, so that the
/// length which the outside buffer asks for can be computed.
#[verifier::external_body]
fn luminance(img: &RgbaImage) -> (r: GrayImage)
    requires
        !img@.is_empty(),
    ensures
        r@ == grayscale_of(img@),
{
    let (width, height) = img.dimensions();
    let colour: image::RgbaImage = image::ImageBuffer::from_raw(width, height, img.data().clone())
        .expect("four bytes for each pixel");
    let gray = image::imageops::grayscale(&colour);
    GrayImage::from_raw(width, height, gray.into_raw()).expect("one byte for each pixel")
}

/// The image in shades of grey; an image without pixels stays one, of the
/// same size.
pub fn to_grayscale(img: &RgbaImage) -> (r: GrayImage)
    ensures
        r@ == grayscale_of(img@),
{
    if img.is_empty() {
        let (width, height) = img.dimensions();
        assert(width * height == 0) by (nonlinear_arith)
            requires
                width == 0 || height == 0,
        ;
        let blank = GrayImage::from_raw(width, height, Vec::new()).unwrap();
        assert(blank@.pixels =~= grayscale_of(img@).pixels);
        return blank;
    }
    luminance(img)
}

/// An image with the same size and each pixel changed by `f`.
pub open spec fn mapped(img: GrayView, f: spec_fn(u8) -> u8) -> GrayView {
    GrayView { pixels: Seq::new(img.pixels.len(), |i: int| f(img.pixels[i])), ..img }
}

/// Black or white by one value: white above the threshold.
pub open spec fn binary(value: u8, threshold: u8) -> u8 {
    if value > threshold {
        255
    } else {
        0
    }
}

/// The image in black and white by one value.
pub open spec fn thresholded(img: GrayView, threshold: u8) -> GrayView {
    mapped(img, |v: u8| binary(v, threshold))
}

/// Turns every pixel above the threshold white and every other one black.
pub fn apply_threshold(img: &GrayImage, threshold: u8) -> (r: GrayImage)
    ensures
        r@ == thresholded(img@, threshold),
{
    let source = img.pixels();
    let mut pixels: Vec<u8> = Vec::new();
    let mut i: usize = 0;
    while i < source.len()
        invariant
            i <= source@.len(),
            pixels@.len() == i,
            forall|k: int| 0 <= k < i ==> pixels@[k] == binary(source@[k], threshold),
        decreases source.len() - i,
    {
        pixels.push(
            if source[i] > threshold {
                255
            } else {
                0
            },
        );
        i += 1;
    }
    assert(pixels@ =~= thresholded(img@, threshold).pixels);
    GrayImage::from_raw(img.width(), img.height(), pixels).unwrap()
}

/// Whether every pixel is black or white.
pub open spec fn is_binary(img: GrayView) -> bool {
    forall|i: int| 0 <= i < img.pixels.len() ==> img.pixels[i] == 0 || img.pixels[i] == 255
}

/// An image in black and white stays as it is when it is put in black and
/// white by a threshold, unless the threshold is 255 and a pixel is white:
/// no value lies above 255, so that pixel would turn black.
pub proof fn lemma_threshold_keeps_binary(img: GrayView, threshold: u8)
    requires
        is_binary(img),
        threshold < 255 || forall|i: int| 0 <= i < img.pixels.len() ==> img.pixels[i] != 255,
    ensures
        thresholded(img, threshold) == img,
{
    assert(thresholded(img, threshold).pixels =~= img.pixels);
}

/// Putting an image in black and white by one value a second time changes
/// nothing, whatever the value.
pub proof fn lemma_threshold_twice(img: GrayView, threshold: u8)
    ensures
        thresholded(thresholded(img, threshold), threshold) == thresholded(img, threshold),
{
    assert(thresholded(thresholded(img, threshold), threshold).pixels =~= thresholded(
        img,
        threshold,
    ).pixels);
}

/// The image with light and dark exchanged.
pub open spec fn inverted(img: GrayView) -> GrayView {
    mapped(img, |v: u8| (255 - v) as u8)
}

/// Exchanges light and dark.
pub fn invert(img: &GrayImage) -> (r: GrayImage)
    ensures
        r@ == inverted(img@),
{
    let source = img.pixels();
    let mut pixels: Vec<u8> = Vec::new();
    let mut i: usize = 0;
    while i < source.len()
        invariant
            i <= source@.len(),
            pixels@.len() == i,
            forall|k: int| 0 <= k < i ==> pixels@[k] == (255 - source@[k]) as u8,
        decreases source.len() - i,
    {
        pixels.push(255 - source[i]);
        i += 1;
    }
    assert(pixels@ =~= inverted(img@).pixels);
    GrayImage::from_raw(img.width(), img.height(), pixels).unwrap()
}

/// Exchanging light and dark twice gives the image back.
pub proof fn lemma_invert_twice(img: GrayView)
    ensures
        inverted(inverted(img)) == img,
{
    assert(inverted(inverted(img)).pixels =~= img.pixels);
}

/// A value moved away from the middle grey by a factor in thousandths, and
/// kept between black and white.
pub open spec fn contrasted(value: u8, factor: int) -> u8 {
    let moved = (value - 128) * factor + 128 * 1000;
    if moved < 0 {
        0
    } else if moved / 1000 > 255 {
        255
    } else {
        (moved / 1000) as u8
    }
}

/// The image with its contrast raised by a factor in thousandths.
pub open spec fn contrast_enhanced(img: GrayView, factor: int) -> GrayView {
    mapped(img, |v: u8| contrasted(v, factor))
}

/// Stretches the values of the image around the middle grey.
pub fn enhance_contrast(img: &GrayImage, factor: i32) -> (r: GrayImage)
    ensures
        r@ == contrast_enhanced(img@, factor as int),
{
    let source = img.pixels();
    let mut pixels: Vec<u8> = Vec::new();
    let mut i: usize = 0;
    while i < source.len()
        invariant
            i <= source@.len(),
            pixels@.len() == i,
            forall|k: int| 0 <= k < i ==> pixels@[k] == contrasted(source@[k], factor as int),
        decreases source.len() - i,
    {
        let distance: i64 = source[i] as i64 - 128;
        assert(-128 * 0x8000_0000 <= distance * factor <= 128 * 0x8000_0000) by (nonlinear_arith)
            requires
                -128 <= distance <= 127,
                -0x8000_0000 <= factor < 0x8000_0000,
        ;
        let moved: i64 = distance * (factor as i64) + 128000;
        let value: u8 = if moved < 0 {
            0
        } else if moved / 1000 > 255 {
            255
        } else {
            (moved / 1000) as u8
        };
        pixels.push(value);
        i += 1;
    }
    assert(pixels@ =~= contrast_enhanced(img@, factor as int).pixels);
    GrayImage::from_raw(img.width(), img.height(), pixels).unwrap()
}


/// The longest side, in pixels, that an image is enlarged to. The resampling
/// places each new pixel within the old image in 32-bit floating point; up to
/// this side such a place is held to an eighth of a pixel, and the filter
/// always finds the pixel that it lies on.
pub const MAX_SCALED_SIDE: u32 = 1048576;

/// A side of an image enlarged by a factor in thousandths, rounded down and
/// kept within 32 bits.
pub open spec fn scaled_side(side: int, factor: int) -> int {
    if side * factor / 1000 > u32::MAX {
        u32::MAX as int
    } else {
        side * factor / 1000
    }
}

/// Whether the image can be enlarged by the factor: the new sides are within
/// `MAX_SCALED_SIDE`, and the enlarged image and what is held in between, 16
/// bytes for each pixel of the old width and the new height, can be addressed.
pub open spec fn upscale_fits(width: int, height: int, factor: int) -> bool {
    factor <= 1000 || width == 0 || height == 0 || {
        &&& scaled_side(width, factor) <= MAX_SCALED_SIDE
        &&& scaled_side(height, factor) <= MAX_SCALED_SIDE
        &&& 16 * (width * scaled_side(height, factor)) <= isize::MAX
        &&& scaled_side(width, factor) * scaled_side(height, factor) <= isize::MAX
    }
}

/// `image::imageops::resize` with the filter `FilterType::Lanczos3`, on an
/// image of one channel that is enlarged: an image of the new size. Its pixels
/// come out of arithmetic on floating-point numbers, of which nothing is
/// stated here. The sizes asked for are those for which the call allocates
/// what it can address and places the new pixels closely enough for its
/// weights never to add up to nothing.
#[verifier::external_body]
fn resize_lanczos3(img: &GrayImage, nwidth: u32, nheight: u32) -> (r: GrayImage)
    requires
        0 < img@.width <= nwidth <= MAX_SCALED_SIDE,
        0 < img@.height <= nheight <= MAX_SCALED_SIDE,
        16 * (img@.width * nheight) <= isize::MAX,
        nwidth * nheight <= isize::MAX,
    ensures
        r@.width == nwidth,
        r@.height == nheight,
        r@.wf(),
{
    let (width, height) = img.dimensions();
    let gray: image::GrayImage = image::ImageBuffer::from_raw(width, height, img.pixels().clone())
        .expect("one byte for each pixel");
    let resized = image::imageops::resize(
        &gray,
        nwidth,
        nheight,
        image::imageops::FilterType::Lanczos3,
    );
    GrayImage::from_raw(nwidth, nheight, resized.into_raw()).expect("one byte for each pixel")
}

/// A side of an image enlarged by a factor in thousandths.
fn scale_side(side: u32, factor: u32) -> (r: u32)
    ensures
        r == scaled_side(side as int, factor as int),
{
    assert(side * factor <= 0xffff_ffff * 0xffff_ffff) by (nonlinear_arith)
        requires
            0 <= side <= 0xffff_ffff,
            0 <= factor <= 0xffff_ffff,
    ;
    let exact: u64 = (side as u64) * (factor as u64) / 1000;
    if exact > 0xffff_ffff {
        0xffff_ffff
    } else {
        exact as u32
    }
}

/// Whether an image of the given size can be enlarged by the factor.
pub fn can_upscale(width: u32, height: u32, factor: u32) -> (b: bool)
    ensures
        b == upscale_fits(width as int, height as int, factor as int),
{
    if factor <= UNIT_FACTOR || width == 0 || height == 0 {
        return true;
    }
    let nwidth = scale_side(width, factor);
    let nheight = scale_side(height, factor);
    if nwidth > MAX_SCALED_SIDE || nheight > MAX_SCALED_SIDE {
        return false;
    }
    let between: u128 = 16 * (area(width, nheight) as u128);
    let after: u64 = area(nwidth, nheight);
    between <= isize::MAX as u128 && after <= isize::MAX as u64
}

/// Enlarges the image by a factor in thousandths; a factor of at most 1000
/// leaves it as it is. What the new pixels hold is the resampling filter's
/// matter; the size is stated.
pub fn upscale(img: &GrayImage, factor: u32) -> (r: GrayImage)
    requires
        upscale_fits(img@.width as int, img@.height as int, factor as int),
    ensures
        factor <= 1000 ==> r@ == img@,
        factor > 1000 ==> r@.width == scaled_side(img@.width as int, factor as int) && r@.height
            == scaled_side(img@.height as int, factor as int),
        factor == 2000 && 2 * img@.width <= u32::MAX && 2 * img@.height <= u32::MAX ==> r@.width
            == 2 * img@.width && r@.height == 2 * img@.height,
        r@.wf(),
{
    proof {
        lemma_scaled_side(img@.width as int, factor as int);
        lemma_scaled_side(img@.height as int, factor as int);
    }
    if factor <= UNIT_FACTOR {
        let same = img.clone();
        let _ = same.pixels();
        return same;
    }
    let nwidth = scale_side(img.width(), factor);
    let nheight = scale_side(img.height(), factor);
    if img.is_empty() {
        proof {
            lemma_scaled_empty(img@.width as int, img@.height as int, factor as int);
        }
        let blank = GrayImage::new(nwidth, nheight);
        assert(blank@.pixels.len() == nwidth * nheight);
        return blank;
    }
    proof {
        lemma_scaled_grows(img@.width as int, factor as int);
        lemma_scaled_grows(img@.height as int, factor as int);
    }
    resize_lanczos3(img, nwidth, nheight)
}

/// A side enlarged by a factor is the side times the factor, in thousandths
/// and rounded down, where that fits in 32 bits: the side itself for a factor
/// of one, twice the side for a factor of two.
pub proof fn lemma_scaled_side(side: int, factor: int)
    requires
        0 <= side,
        0 <= factor,
    ensures
        side * factor / 1000 <= u32::MAX ==> scaled_side(side, factor) == side * factor / 1000,
        side <= u32::MAX ==> scaled_side(side, 1000) == side,
        2 * side <= u32::MAX ==> scaled_side(side, 2000) == 2 * side,
{
    assert(side * 1000 / 1000 == side);
    assert(side * 2000 / 1000 == 2 * side);
}

/// A side that is enlarged does not shrink.
proof fn lemma_scaled_grows(side: int, factor: int)
    requires
        0 <= side <= u32::MAX,
        factor > 1000,
    ensures
        scaled_side(side, factor) >= side,
{
    assert(side * factor >= side * 1000) by (nonlinear_arith)
        requires
            side >= 0,
            factor > 1000,
    ;
}

/// An image without pixels has none when its sides are enlarged.
proof fn lemma_scaled_empty(width: int, height: int, factor: int)
    requires
        0 <= width <= u32::MAX,
        0 <= height <= u32::MAX,
        0 <= factor,
        width == 0 || height == 0,
    ensures
        scaled_side(width, factor) * scaled_side(height, factor) == 0,
{
    if width == 0 {
        assert(0 * factor == 0) by (nonlinear_arith);
        assert(scaled_side(width, factor) == 0);
        assert(0 * scaled_side(height, factor) == 0) by (nonlinear_arith);
    } else {
        assert(0 * factor == 0) by (nonlinear_arith);
        assert(scaled_side(height, factor) == 0);
        assert(scaled_side(width, factor) * 0 == 0) by (nonlinear_arith);
    }
}


/// Where the surroundings of a position begin: `half` positions before it, or
/// at the image's edge.
pub open spec fn window_start(center: int, half: int) -> int {
    if center - half < 0 {
        0
    } else {
        center - half
    }
}

/// Where the surroundings of a position end, in a row or column of `size`
/// positions: one past `half` positions after it, or at the image's edge.
pub open spec fn window_end(center: int, half: int, size: int) -> int {
    if center + half + 1 > size {
        size
    } else {
        center + half + 1
    }
}

/// The values of row `y` from column `x0` up to, not including, column `x1`.
pub open spec fn row_values(img: GrayView, y: int, x0: int, x1: int) -> Seq<u8> {
    Seq::new((x1 - x0) as nat, |i: int| img.at(x0 + i, y))
}

/// The values of the rows from `y0` up to, not including, `y1`, each from
/// column `x0` up to, not including, `x1`; row by row.
pub open spec fn block_values(img: GrayView, x0: int, x1: int, y0: int, y1: int) -> Seq<u8>
    decreases y1 - y0,
{
    if y1 <= y0 {
        Seq::empty()
    } else {
        block_values(img, x0, x1, y0, y1 - 1) + row_values(img, y1 - 1, x0, x1)
    }
}

/// The values of the pixels at most `half` columns and `half` rows away from
/// a pixel, as far as the image has them.
pub open spec fn neighbourhood(img: GrayView, x: int, y: int, half: int) -> Seq<u8> {
    block_values(
        img,
        window_start(x, half),
        window_end(x, half, img.width as int),
        window_start(y, half),
        window_end(y, half, img.height as int),
    )
}

/// The sum of the values.
pub open spec fn total(values: Seq<u8>) -> int
    decreases values.len(),
{
    if values.len() == 0 {
        0
    } else {
        total(values.drop_last()) + values.last()
    }
}

/// The mean of the values, rounded down.
pub open spec fn mean(values: Seq<u8>) -> int {
    total(values) / (values.len() as int)
}

/// How many of the values are at most `limit`.
pub open spec fn count_upto(values: Seq<u8>, limit: int) -> int
    decreases values.len(),
{
    if values.len() == 0 {
        0
    } else {
        count_upto(values.drop_last(), limit) + if values.last() <= limit {
            1int
        } else {
            0int
        }
    }
}

/// Whether `m` is the median of the values: the value in the middle when they
/// stand in ascending order, the upper of the two for an even number. At most
/// half of the values are below it, and more than half are at most it.
pub open spec fn is_median(values: Seq<u8>, m: u8) -> bool {
    count_upto(values, m - 1) <= values.len() / 2 < count_upto(values, m as int)
}

/// The median of the values.
pub open spec fn median(values: Seq<u8>) -> u8 {
    choose|m: u8| is_median(values, m)
}

/// The number of values at most a limit grows with the limit, from none
/// below zero to all of them at 255.
pub proof fn lemma_count_upto(values: Seq<u8>, low: int, high: int)
    requires
        low <= high,
    ensures
        0 <= count_upto(values, low) <= count_upto(values, high) <= values.len(),
        low < 0 ==> count_upto(values, low) == 0,
        high >= 255 ==> count_upto(values, high) == values.len(),
    decreases values.len(),
{
    if values.len() > 0 {
        lemma_count_upto(values.drop_last(), low, high);
    }
}

/// The values have one median.
pub proof fn lemma_median_unique(values: Seq<u8>, a: u8, b: u8)
    requires
        is_median(values, a),
        is_median(values, b),
    ensures
        a == b,
{
    if a < b {
        lemma_count_upto(values, a as int, b - 1);
    } else if b < a {
        lemma_count_upto(values, b as int, a - 1);
    }
}

/// Whether the values stand in ascending order.
pub open spec fn is_ascending(values: Seq<u8>) -> bool {
    forall|i: int, j: int| 0 <= i <= j < values.len() ==> values[i] <= values[j]
}

/// How many members of a collection of values are at most `limit`.
spec fn tally(values: Multiset<u8>, limit: int) -> int
    decreases limit + 1,
{
    if limit < 0 {
        0
    } else {
        tally(values, limit - 1) + if limit <= 255 {
            values.count(limit as u8) as int
        } else {
            0int
        }
    }
}

/// One more value is one more member at most `limit`, if the value is.
proof fn lemma_tally_insert(values: Multiset<u8>, x: u8, limit: int)
    ensures
        tally(values.insert(x), limit) == tally(values, limit) + if x <= limit {
            1int
        } else {
            0int
        },
    decreases limit + 1,
{
    if limit >= 0 {
        lemma_tally_insert(values, x, limit - 1);
    }
}

/// No member of the empty collection is at most `limit`.
proof fn lemma_tally_empty(limit: int)
    ensures
        tally(Multiset::<u8>::empty(), limit) == 0,
    decreases limit + 1,
{
    if limit >= 0 {
        lemma_tally_empty(limit - 1);
    }
}

/// How many values are at most `limit` does not depend on their order.
proof fn lemma_count_is_tally(values: Seq<u8>, limit: int)
    ensures
        count_upto(values, limit) == tally(values.to_multiset(), limit),
    decreases values.len(),
{
    if values.len() == 0 {
        assert(values.to_multiset() =~= Multiset::<u8>::empty()) by {
            values.to_multiset_ensures();
        }
        lemma_tally_empty(limit);
    } else {
        lemma_count_is_tally(values.drop_last(), limit);
        vstd::seq_lib::to_multiset_build(values.drop_last(), values.last());
        assert(values.drop_last().push(values.last()) =~= values);
        lemma_tally_insert(values.drop_last().to_multiset(), values.last(), limit);
    }
}

/// Where every value is at most `limit`, all of them count.
proof fn lemma_count_all(values: Seq<u8>, limit: int)
    requires
        forall|i: int| 0 <= i < values.len() ==> values[i] <= limit,
    ensures
        count_upto(values, limit) == values.len(),
    decreases values.len(),
{
    if values.len() > 0 {
        lemma_count_all(values.drop_last(), limit);
    }
}

/// In ascending order more than `k` values are at most the value at position
/// `k`, and at most `k` are below it.
proof fn lemma_ascending_counts(sorted: Seq<u8>, k: int)
    requires
        is_ascending(sorted),
        0 <= k < sorted.len(),
    ensures
        count_upto(sorted, sorted[k] - 1) <= k < count_upto(sorted, sorted[k] as int),
    decreases sorted.len(),
{
    let front = sorted.drop_last();
    if k == sorted.len() - 1 {
        lemma_count_all(front, sorted[k] as int);
        lemma_count_upto(front, sorted[k] - 1, sorted[k] - 1);
    } else {
        assert(is_ascending(front));
        lemma_ascending_counts(front, k);
        assert(sorted[k] <= sorted.last());
    }
}

/// The median of the values is the one in the middle when they stand in
/// ascending order, the upper of the two for an even number of values.
pub proof fn lemma_median_is_middle(values: Seq<u8>, sorted: Seq<u8>)
    requires
        values.len() > 0,
        is_ascending(sorted),
        sorted.to_multiset() == values.to_multiset(),
    ensures
        sorted.len() == values.len(),
        is_median(values, sorted[(values.len() / 2) as int]),
        median(values) == sorted[(values.len() / 2) as int],
{
    values.to_multiset_ensures();
    sorted.to_multiset_ensures();
    let k = (values.len() / 2) as int;
    let m = sorted[k];
    lemma_ascending_counts(sorted, k);
    lemma_count_is_tally(values, m as int);
    lemma_count_is_tally(sorted, m as int);
    lemma_count_is_tally(values, m - 1);
    lemma_count_is_tally(sorted, m - 1);
    lemma_median_unique(values, m, median(values));
}

/// The sum of a list of values is at most 255 times their number.
proof fn lemma_total_bound(values: Seq<u8>)
    ensures
        0 <= total(values) <= 255 * values.len(),
    decreases values.len(),
{
    if values.len() > 0 {
        lemma_total_bound(values.drop_last());
    }
}

/// The values around a pixel.
fn collect_neighbourhood(img: &GrayImage, x: u32, y: u32, half: u32) -> (values: Vec<u8>)
    requires
        x < img@.width,
        y < img@.height,
    ensures
        values@ == neighbourhood(img@, x as int, y as int, half as int),
        values@.len() > 0,
{
    let width = img.width();
    let height = img.height();
    let source = img.pixels();
    let x0: u32 = if x < half {
        0
    } else {
        x - half
    };
    let y0: u32 = if y < half {
        0
    } else {
        y - half
    };
    let x1: u32 = if x as u64 + half as u64 + 1 > width as u64 {
        width
    } else {
        x + half + 1
    };
    let y1: u32 = if y as u64 + half as u64 + 1 > height as u64 {
        height
    } else {
        y + half + 1
    };
    let mut values: Vec<u8> = Vec::new();
    let mut ny: u32 = y0;
    while ny < y1
        invariant
            y0 <= ny <= y1 <= height,
            x0 < x1 <= width,
            width == img@.width,
            height == img@.height,
            source@ == img@.pixels,
            img@.wf(),
            values@ == block_values(img@, x0 as int, x1 as int, y0 as int, ny as int),
            ny > y0 ==> values@.len() > 0,
        decreases y1 - ny,
    {
        let ghost before = values@;
        let mut nx: u32 = x0;
        while nx < x1
            invariant
                x0 <= nx <= x1 <= width,
                ny < height,
                width == img@.width,
                height == img@.height,
                source@ == img@.pixels,
                img@.wf(),
                values@ == before + row_values(img@, ny as int, x0 as int, nx as int),
            decreases x1 - nx,
        {
            let len: usize = source.len();
            proof {
                lemma_index_in_range(nx as int, ny as int, width as int, height as int);
                assert(ny * width + nx < len);
            }
            let i: usize = (ny as usize) * (width as usize) + (nx as usize);
            values.push(source[i]);
            assert(values@ =~= before + row_values(img@, ny as int, x0 as int, nx + 1));
            nx += 1;
        }
        ny += 1;
    }
    values
}

/// The sum of the values.
fn sum_values(values: &Vec<u8>) -> (sum: u128)
    ensures
        sum == total(values@),
{
    let mut sum: u128 = 0;
    let mut i: usize = 0;
    while i < values.len()
        invariant
            i <= values@.len(),
            sum == total(values@.take(i as int)),
            sum <= 255 * i,
        decreases values.len() - i,
    {
        assert(values@.take(i + 1).drop_last() =~= values@.take(i as int));
        sum = sum + values[i] as u128;
        i += 1;
    }
    assert(values@.take(i as int) =~= values@);
    sum
}

/// How many of the values are at most `limit`.
fn count_values_upto(values: &Vec<u8>, limit: u8) -> (count: usize)
    ensures
        count == count_upto(values@, limit as int),
{
    let mut count: usize = 0;
    let mut i: usize = 0;
    while i < values.len()
        invariant
            i <= values@.len(),
            count == count_upto(values@.take(i as int), limit as int),
            count <= i,
        decreases values.len() - i,
    {
        assert(values@.take(i + 1).drop_last() =~= values@.take(i as int));
        if values[i] <= limit {
            count += 1;
        }
        i += 1;
    }
    assert(values@.take(i as int) =~= values@);
    count
}

/// The median of the values.
fn select_median(values: &Vec<u8>) -> (m: u8)
    requires
        values@.len() > 0,
    ensures
        m == median(values@),
        is_median(values@, m),
{
    let middle: usize = values.len() / 2;
    let mut candidate: u8 = 0;
    proof {
        lemma_count_upto(values@, -1, -1);
    }
    loop
        invariant
            values@.len() > 0,
            middle == values@.len() / 2,
            count_upto(values@, candidate - 1) <= middle,
        ensures
            is_median(values@, candidate),
        decreases 255 - candidate,
    {
        let count = count_values_upto(values, candidate);
        if count > middle {
            break ;
        }
        proof {
            lemma_count_upto(values@, 255, 255);
        }
        candidate += 1;
    }
    proof {
        lemma_median_unique(values@, candidate, median(values@));
    }
    candidate
}

/// Black or white by the surroundings: white for a pixel above the mean of
/// its surroundings less `c`.
pub open spec fn adaptive_binary(img: GrayView, x: int, y: int, half: int, c: int) -> u8 {
    if img.at(x, y) > mean(neighbourhood(img, x, y, half)) - c {
        255
    } else {
        0
    }
}

/// The image in black and white by the surroundings of each pixel, a square
/// of `block_size` pixels; the image itself where `block_size` is not odd.
pub open spec fn adaptive_thresholded(img: GrayView, block_size: int, c: int) -> GrayView {
    if block_size <= 0 || block_size % 2 == 0 {
        img
    } else {
        GrayView {
            pixels: Seq::new(
                img.pixels.len(),
                |i: int|
                    adaptive_binary(
                        img,
                        i % (img.width as int),
                        i / (img.width as int),
                        block_size / 2,
                        c,
                    ),
            ),
            ..img
        }
    }
}

/// Column and row of the pixel at a position of the buffer.
proof fn lemma_position(i: int, width: int, height: int)
    requires
        0 <= i < width * height,
        0 <= width,
        0 <= height,
    ensures
        0 <= i % width < width,
        0 <= i / width < height,
        (i / width) * width + i % width == i,
{
    assert(width > 0) by (nonlinear_arith)
        requires
            0 <= i < width * height,
            0 <= width,
    ;
    vstd::arithmetic::div_mod::lemma_fundamental_div_mod(i, width);
    vstd::arithmetic::div_mod::lemma_mod_bound(i, width);
    assert(i / width < height) by (nonlinear_arith)
        requires
            0 <= i < width * height,
            width > 0,
            i == width * (i / width) + i % width,
            0 <= i % width,
    ;
    assert(0 <= i / width) by (nonlinear_arith)
        requires
            0 <= i,
            width > 0,
            i == width * (i / width) + i % width,
            i % width < width,
    ;
    assert((i / width) * width == width * (i / width)) by (nonlinear_arith);
}

/// Turns each pixel white or black by the mean of its surroundings.
pub fn apply_adaptive_threshold(img: &GrayImage, block_size: u32, c: i32) -> (r: GrayImage)
    ensures
        r@ == adaptive_thresholded(img@, block_size as int, c as int),
{
    if block_size == 0 || block_size % 2 == 0 {
        return img.clone();
    }
    let half = block_size / 2;
    let width = img.width();
    let height = img.height();
    let source = img.pixels();
    let mut pixels: Vec<u8> = Vec::new();
    let mut i: usize = 0;
    while i < source.len()
        invariant
            i <= source@.len(),
            source@ == img@.pixels,
            img@.wf(),
            width == img@.width,
            height == img@.height,
            half == block_size / 2,
            pixels@.len() == i,
            forall|k: int|
                0 <= k < i ==> pixels@[k] == adaptive_binary(
                    img@,
                    k % (width as int),
                    k / (width as int),
                    half as int,
                    c as int,
                ),
        decreases source.len() - i,
    {
        proof {
            lemma_position(i as int, width as int, height as int);
        }
        let x: u32 = (i % (width as usize)) as u32;
        let y: u32 = (i / (width as usize)) as u32;
        let values = collect_neighbourhood(img, x, y, half);
        let sum = sum_values(&values);
        let count: u128 = values.len() as u128;
        proof {
            lemma_total_bound(values@);
            assert(0 <= sum / count <= 255) by (nonlinear_arith)
                requires
                    0 <= sum <= 255 * count,
                    count > 0,
            ;
            assert(img@.at(x as int, y as int) == source@[i as int]);
        }
        let local_mean: i64 = (sum / count) as i64;
        let value: u8 = if source[i] as i64 > local_mean - c as i64 {
            255
        } else {
            0
        };
        pixels.push(value);
        i += 1;
    }
    assert(pixels@ =~= adaptive_thresholded(img@, block_size as int, c as int).pixels);
    GrayImage::from_raw(width, height, pixels).unwrap()
}

/// The image with each pixel replaced by the median of its surroundings, a
/// square of `kernel_size` pixels; the image itself where `kernel_size` is
/// below three or not odd.
pub open spec fn median_filtered(img: GrayView, kernel_size: int) -> GrayView {
    if kernel_size < 3 || kernel_size % 2 == 0 {
        img
    } else {
        GrayView {
            pixels: Seq::new(
                img.pixels.len(),
                |i: int|
                    median(
                        neighbourhood(
                            img,
                            i % (img.width as int),
                            i / (img.width as int),
                            kernel_size / 2,
                        ),
                    ),
            ),
            ..img
        }
    }
}

/// Replaces each pixel by the median of its surroundings.
pub fn apply_median_filter(img: &GrayImage, kernel_size: u32) -> (r: GrayImage)
    ensures
        r@ == median_filtered(img@, kernel_size as int),
{
    if kernel_size < 3 || kernel_size % 2 == 0 {
        return img.clone();
    }
    let half = kernel_size / 2;
    let width = img.width();
    let height = img.height();
    let source = img.pixels();
    let mut pixels: Vec<u8> = Vec::new();
    let mut i: usize = 0;
    while i < source.len()
        invariant
            i <= source@.len(),
            source@ == img@.pixels,
            img@.wf(),
            width == img@.width,
            height == img@.height,
            half == kernel_size / 2,
            pixels@.len() == i,
            forall|k: int|
                0 <= k < i ==> pixels@[k] == median(
                    neighbourhood(img@, k % (width as int), k / (width as int), half as int),
                ),
        decreases source.len() - i,
    {
        proof {
            lemma_position(i as int, width as int, height as int);
        }
        let x: u32 = (i % (width as usize)) as u32;
        let y: u32 = (i / (width as usize)) as u32;
        let values = collect_neighbourhood(img, x, y, half);
        pixels.push(select_median(&values));
        i += 1;
    }
    assert(pixels@ =~= median_filtered(img@, kernel_size as int).pixels);
    GrayImage::from_raw(width, height, pixels).unwrap()
}


/// Whether the adaptive threshold leaves every pixel of an image in black and
/// white as it is: each white pixel lies above the mean of its surroundings
/// less `c`, and no black pixel does.
pub open spec fn adaptive_stable(img: GrayView, half: int, c: int) -> bool {
    forall|i: int|
        0 <= i < img.pixels.len() ==> (#[trigger] img.pixels[i] == 255) == (img.pixels[i] > mean(
            neighbourhood(img, i % (img.width as int), i / (img.width as int), half),
        ) - c)
}

/// The adaptive threshold gives an image in black and white back exactly
/// where each white pixel lies above the mean of its surroundings less `c`
/// and no black pixel does; with a block size that is not odd it gives every
/// image back.
pub proof fn lemma_adaptive_keeps_binary(img: GrayView, block_size: int, c: int)
    requires
        img.wf(),
        is_binary(img),
    ensures
        block_size <= 0 || block_size % 2 == 0 ==> adaptive_thresholded(img, block_size, c) == img,
        block_size > 0 && block_size % 2 != 0 ==> (adaptive_thresholded(img, block_size, c) == img
            <==> adaptive_stable(img, block_size / 2, c)),
{
    if block_size > 0 && block_size % 2 != 0 {
        let out = adaptive_thresholded(img, block_size, c);
        let half = block_size / 2;
        assert forall|i: int| 0 <= i < img.pixels.len() implies img.at(
            i % (img.width as int),
            i / (img.width as int),
        ) == img.pixels[i] by {
            lemma_position(i, img.width as int, img.height as int);
        }
        if adaptive_stable(img, half, c) {
            assert forall|i: int| 0 <= i < img.pixels.len() implies out.pixels[i]
                == img.pixels[i] by {
                assert((img.pixels[i] == 255) == (img.pixels[i] > mean(
                    neighbourhood(img, i % (img.width as int), i / (img.width as int), half),
                ) - c));
            }
            assert(out.pixels =~= img.pixels);
        }
        if out == img {
            assert forall|i: int| 0 <= i < img.pixels.len() implies (#[trigger] img.pixels[i]
                == 255) == (img.pixels[i] > mean(
                neighbourhood(img, i % (img.width as int), i / (img.width as int), half),
            ) - c) by {
                assert(out.pixels[i] == adaptive_binary(
                    img,
                    i % (img.width as int),
                    i / (img.width as int),
                    half,
                    c,
                ));
            }
        }
    }
}

/// The image after the contrast stage: its shades of grey, stretched unless
/// the factor is one.
pub open spec fn contrast_stage(img: RgbaView, config: PreprocessConfig) -> GrayView {
    if config.contrast_factor != 1000 {
        contrast_enhanced(grayscale_of(img), config.contrast_factor as int)
    } else {
        grayscale_of(img)
    }
}

/// Whether `after` is `before` enlarged by the factor: the same image for a
/// factor of at most 1000, else an image with the enlarged sides.
pub open spec fn is_upscaled(before: GrayView, after: GrayView, factor: int) -> bool {
    &&& after.wf()
    &&& factor <= 1000 ==> after == before
    &&& factor > 1000 ==> after.width == scaled_side(before.width as int, factor) && after.height
        == scaled_side(before.height as int, factor)
}

/// The image after the threshold stage.
pub open spec fn threshold_stage(img: GrayView, config: PreprocessConfig) -> GrayView {
    if config.use_adaptive_threshold {
        adaptive_thresholded(img, config.adaptive_block_size as int, config.adaptive_c as int)
    } else {
        thresholded(img, config.threshold)
    }
}

/// The image after the last two stages: threshold, then inversion if it is
/// asked for.
pub open spec fn final_stages(img: GrayView, config: PreprocessConfig) -> GrayView {
    if config.invert {
        inverted(threshold_stage(img, config))
    } else {
        threshold_stage(img, config)
    }
}

/// The stages after the enlargement keep the size of the image: what comes
/// out has the sides that the enlargement gave.
pub proof fn lemma_stages_keep_size(img: GrayView, config: PreprocessConfig, kernel_size: int)
    ensures
        final_stages(img, config).width == img.width,
        final_stages(img, config).height == img.height,
        final_stages(img, config).pixels.len() == img.pixels.len(),
        median_filtered(img, kernel_size).width == img.width,
        median_filtered(img, kernel_size).height == img.height,
        median_filtered(img, kernel_size).pixels.len() == img.pixels.len(),
{
}

/// The side of the median filter that follows the blur.
pub const DENOISE_KERNEL: u32 = 3;

/// How far an image has come through the stages.
#[derive(Debug)]
pub enum PreprocessStep {
    /// Grey, stretched and enlarged; the noise is still to be smoothed out,
    /// first by a mild Gaussian blur, which is not this library's, then by
    /// `finish_preprocess`.
    Smooth(GrayImage),
    /// Through all stages.
    Done(GrayImage),
}

/// The threshold and inversion stages.
fn apply_final_stages(img: &GrayImage, config: &PreprocessConfig) -> (r: GrayImage)
    ensures
        r@ == final_stages(img@, *config),
{
    let binary = if config.use_adaptive_threshold {
        apply_adaptive_threshold(img, config.adaptive_block_size, config.adaptive_c)
    } else {
        apply_threshold(img, config.threshold)
    };
    if config.invert {
        invert(&binary)
    } else {
        binary
    }
}

/// Takes a captured image through the stages: shades of grey, contrast,
/// enlargement and, where no noise is to be smoothed out, threshold and
/// inversion. An image without pixels is refused.
pub fn preprocess_for_ocr(img: &RgbaImage, config: &PreprocessConfig) -> (r: Result<
    PreprocessStep,
    PreprocessError,
>)
    requires
        upscale_fits(img@.width as int, img@.height as int, config.scale_factor as int),
    ensures
        img@.is_empty() <==> r is Err,
        r is Err ==> r->Err_0 == PreprocessError::EmptyImage,
        r is Ok ==> match r->Ok_0 {
            PreprocessStep::Smooth(grey) => config.denoise && is_upscaled(
                contrast_stage(img@, *config),
                grey@,
                config.scale_factor as int,
            ),
            PreprocessStep::Done(done) => !config.denoise && exists|grey: GrayView|
                #[trigger] is_upscaled(
                    contrast_stage(img@, *config),
                    grey,
                    config.scale_factor as int,
                ) && done@ == final_stages(grey, *config),
        },
{
    if img.width() == 0 || img.height() == 0 {
        return Err(PreprocessError::EmptyImage);
    }
    let mut processed = to_grayscale(img);
    if config.contrast_factor != 1000 {
        processed = enhance_contrast(&processed, config.contrast_factor);
    }
    if config.scale_factor > UNIT_FACTOR {
        processed = upscale(&processed, config.scale_factor);
    }
    let _ = processed.pixels();
    if config.denoise {
        Ok(PreprocessStep::Smooth(processed))
    } else {
        let ghost grey = processed@;
        let done = apply_final_stages(&processed, config);
        assert(is_upscaled(contrast_stage(img@, *config), grey, config.scale_factor as int));
        Ok(PreprocessStep::Done(done))
    }
}

/// Takes a blurred image through the remaining stages: median filter,
/// threshold and inversion.
pub fn finish_preprocess(blurred: &GrayImage, config: &PreprocessConfig) -> (r: GrayImage)
    ensures
        r@ == final_stages(median_filtered(blurred@, DENOISE_KERNEL as int), *config),
{
    let filtered = apply_median_filter(blurred, DENOISE_KERNEL);
    apply_final_stages(&filtered, config)
}

/// `preprocess_for_ocr` with the default settings.
pub fn preprocess_default(img: &RgbaImage) -> (r: Result<PreprocessStep, PreprocessError>)
    requires
        upscale_fits(img@.width as int, img@.height as int, 2000),
    ensures
        img@.is_empty() <==> r is Err,
        r is Err ==> r->Err_0 == PreprocessError::EmptyImage,
        r is Ok ==> match r->Ok_0 {
            PreprocessStep::Smooth(grey) => is_upscaled(
                contrast_stage(img@, default_preprocess_config()),
                grey@,
                2000,
            ),
            PreprocessStep::Done(_) => false,
        },
{
    let config = PreprocessConfig::default();
    preprocess_for_ocr(img, &config)
}

} // verus!
