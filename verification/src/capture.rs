//! Capture regions, the layout that is captured, and what is made of the
//! display's answers.

use vstd::prelude::*;
use vstd::string::*;
use crate::raster::{area, RgbaImage, RgbaView};
use crate::text::{decimal, decimal_string};

verus! {

/// A rectangle of the screen, in pixels.
#[derive(Debug, Clone, Copy, PartialEq, Eq, Structural)]
pub struct CaptureRegion {
    pub x: i32,
    pub y: i32,
    pub width: u32,
    pub height: u32,
}

impl CaptureRegion {
    /// The region has a positive area.
    pub open spec fn valid(self) -> bool {
        self.width > 0 && self.height > 0
    }

    /// The point lies in the region: from its left edge up to, not including,
    /// its right edge, and likewise from top to bottom.
    pub open spec fn covers(self, px: int, py: int) -> bool {
        &&& self.x <= px < self.x + self.width
        &&& self.y <= py < self.y + self.height
    }

    /// The region in words.
    pub open spec fn description(self) -> Seq<char> {
        "Region(x="@ + decimal(self.x as int) + ", y="@ + decimal(self.y as int) + ", w="@
            + decimal(self.width as int) + ", h="@ + decimal(self.height as int) + ")"@
    }

    pub fn new(x: i32, y: i32, width: u32, height: u32) -> (r: Self)
        ensures
            r == (CaptureRegion { x, y, width, height }),
    {
        CaptureRegion { x, y, width, height }
    }

    pub fn is_valid(&self) -> (b: bool)
        ensures
            b == (self.width > 0 && self.height > 0),
            b == self.valid(),
    {
        self.width > 0 && self.height > 0
    }

    pub fn contains(&self, px: i32, py: i32) -> (b: bool)
        ensures
            b == self.covers(px as int, py as int),
    {
        let px: i64 = px as i64;
        let py: i64 = py as i64;
        let left: i64 = self.x as i64;
        let top: i64 = self.y as i64;
        px >= left && px < left + self.width as i64 && py >= top && py < top + self.height as i64
    }

    /// The region in words.
    pub fn to_string(&self) -> (r: String)
        ensures
            r@ == self.description(),
    {
        let mut out = String::from_str("Region(x=");
        out.append(decimal_string(self.x as i128).as_str());
        out.append(", y=");
        out.append(decimal_string(self.y as i128).as_str());
        out.append(", w=");
        out.append(decimal_string(self.width as i128).as_str());
        out.append(", h=");
        out.append(decimal_string(self.height as i128).as_str());
        out.append(")");
        out
    }
}

/// A region holds its own corner exactly if it has a positive area, and
/// never one of the four points just outside: one to the left of the corner,
/// one above it, the first past the right edge and the first past the bottom
/// edge.
pub proof fn lemma_region_bounds(region: CaptureRegion)
    ensures
        region.covers(region.x as int, region.y as int) == region.valid(),
        !region.covers(region.x - 1, region.y as int),
        !region.covers(region.x as int, region.y - 1),
        !region.covers(region.x + region.width, region.y as int),
        !region.covers(region.x as int, region.y + region.height),
{
}

/// Why a capture failed.
#[derive(Debug, PartialEq)]
pub enum CaptureError {
    NoScreensAvailable,
    RegionOutOfBounds,
    InvalidRegion,
    CaptureFailed(String),
}

/// What a capture error holds.
pub enum CaptureErrorView {
    NoScreensAvailable,
    RegionOutOfBounds,
    InvalidRegion,
    CaptureFailed(Seq<char>),
}

impl View for CaptureError {
    type V = CaptureErrorView;

    open spec fn view(&self) -> CaptureErrorView {
        match self {
            CaptureError::NoScreensAvailable => CaptureErrorView::NoScreensAvailable,
            CaptureError::RegionOutOfBounds => CaptureErrorView::RegionOutOfBounds,
            CaptureError::InvalidRegion => CaptureErrorView::InvalidRegion,
            CaptureError::CaptureFailed(msg) => CaptureErrorView::CaptureFailed(msg@),
        }
    }
}

impl Clone for CaptureError {
    fn clone(&self) -> (r: Self)
        ensures
            r@ == self@,
    {
        match self {
            CaptureError::NoScreensAvailable => CaptureError::NoScreensAvailable,
            CaptureError::RegionOutOfBounds => CaptureError::RegionOutOfBounds,
            CaptureError::InvalidRegion => CaptureError::InvalidRegion,
            CaptureError::CaptureFailed(msg) => CaptureError::CaptureFailed(msg.clone()),
        }
    }
}

impl CaptureErrorView {
    /// The message of the error, as text.
    pub open spec fn message(self) -> Seq<char> {
        match self {
            CaptureErrorView::NoScreensAvailable => "No screens available for capture"@,
            CaptureErrorView::RegionOutOfBounds => "Capture region is outside screen bounds"@,
            CaptureErrorView::InvalidRegion =>
                "Invalid capture region (zero or negative dimensions)"@,
            CaptureErrorView::CaptureFailed(msg) => "Screen capture failed: "@ + msg,
        }
    }
}

impl CaptureError {
    /// The message of the error.
    pub fn to_string(&self) -> (r: String)
        ensures
            r@ == self@.message(),
    {
        match self {
            CaptureError::NoScreensAvailable => String::from_str(
                "No screens available for capture",
            ),
            CaptureError::RegionOutOfBounds => String::from_str(
                "Capture region is outside screen bounds",
            ),
            CaptureError::InvalidRegion => String::from_str(
                "Invalid capture region (zero or negative dimensions)",
            ),
            CaptureError::CaptureFailed(msg) => String::from_str("Screen capture failed: ").concat(
                msg.as_str(),
            ),
        }
    }
}

/// The width of the screen that the base layout was made for.
pub const REFERENCE_WIDTH: u32 = 1920;

/// The height of the screen that the base layout was made for.
pub const REFERENCE_HEIGHT: u32 = 1080;

/// A length of the base layout on a screen of another size, rounded down and
/// at most `limit`.
pub open spec fn scaled(base: int, screen: int, reference: int, limit: int) -> int {
    if base * screen / reference > limit {
        limit
    } else {
        base * screen / reference
    }
}

/// A region of the base layout on a screen of another size: every coordinate
/// and every side in proportion to the screen's width or height.
pub open spec fn scaled_region(
    base: CaptureRegion,
    screen_width: u32,
    screen_height: u32,
) -> CaptureRegion {
    CaptureRegion {
        x: scaled(
            base.x as int,
            screen_width as int,
            REFERENCE_WIDTH as int,
            i32::MAX as int,
        ) as i32,
        y: scaled(
            base.y as int,
            screen_height as int,
            REFERENCE_HEIGHT as int,
            i32::MAX as int,
        ) as i32,
        width: scaled(
            base.width as int,
            screen_width as int,
            REFERENCE_WIDTH as int,
            u32::MAX as int,
        ) as u32,
        height: scaled(
            base.height as int,
            screen_height as int,
            REFERENCE_HEIGHT as int,
            u32::MAX as int,
        ) as u32,
    }
}

/// Where the names of the cards stand on the reference screen: left, centre
/// and right in one row, and a fourth below the centre.
pub open spec fn base_layout() -> Seq<CaptureRegion> {
    seq![
        CaptureRegion { x: 350, y: 200, width: 300, height: 60 },
        CaptureRegion { x: 810, y: 200, width: 300, height: 60 },
        CaptureRegion { x: 1270, y: 200, width: 300, height: 60 },
        CaptureRegion { x: 810, y: 500, width: 300, height: 60 },
    ]
}

/// The base layout on a screen of the given size.
pub open spec fn default_layout(screen_width: u32, screen_height: u32) -> Seq<CaptureRegion> {
    Seq::new(4, |i: int| scaled_region(base_layout()[i], screen_width, screen_height))
}

/// A length of the base layout on a screen of another size.
fn scale(base: u32, screen: u32, reference: u32, limit: u32) -> (r: u32)
    requires
        reference > 0,
    ensures
        r == scaled(base as int, screen as int, reference as int, limit as int),
{
    assert(base * screen <= 0xffff_ffff * 0xffff_ffff) by (nonlinear_arith)
        requires
            0 <= base <= 0xffff_ffff,
            0 <= screen <= 0xffff_ffff,
    ;
    let exact: u64 = (base as u64) * (screen as u64) / (reference as u64);
    if exact > limit as u64 {
        limit
    } else {
        exact as u32
    }
}

/// A region of the base layout on a screen of another size.
fn scale_region(base: CaptureRegion, screen_width: u32, screen_height: u32) -> (r: CaptureRegion)
    requires
        base.x >= 0,
        base.y >= 0,
    ensures
        r == scaled_region(base, screen_width, screen_height),
{
    CaptureRegion {
        x: scale(base.x as u32, screen_width, REFERENCE_WIDTH, 0x7fff_ffff) as i32,
        y: scale(base.y as u32, screen_height, REFERENCE_HEIGHT, 0x7fff_ffff) as i32,
        width: scale(base.width, screen_width, REFERENCE_WIDTH, 0xffff_ffff),
        height: scale(base.height, screen_height, REFERENCE_HEIGHT, 0xffff_ffff),
    }
}

/// Where the names of the cards are expected on a screen of the given size.
pub fn get_default_card_regions(screen_width: u32, screen_height: u32) -> (r: Vec<CaptureRegion>)
    ensures
        r@ == default_layout(screen_width, screen_height),
{
    let mut regions: Vec<CaptureRegion> = Vec::new();
    regions.push(scale_region(CaptureRegion::new(350, 200, 300, 60), screen_width, screen_height));
    regions.push(scale_region(CaptureRegion::new(810, 200, 300, 60), screen_width, screen_height));
    regions.push(scale_region(CaptureRegion::new(1270, 200, 300, 60), screen_width, screen_height));
    regions.push(scale_region(CaptureRegion::new(810, 500, 300, 60), screen_width, screen_height));
    assert(regions@ =~= default_layout(screen_width, screen_height));
    regions
}

/// On the reference screen the default layout is the base layout.
pub proof fn lemma_reference_layout()
    ensures
        default_layout(REFERENCE_WIDTH, REFERENCE_HEIGHT) == base_layout(),
        forall|i: int| 0 <= i < 4 ==> (#[trigger] base_layout()[i]).valid(),
{
    assert(default_layout(REFERENCE_WIDTH, REFERENCE_HEIGHT) =~= base_layout());
}

/// On a screen at least 7 pixels wide and 18 pixels high every region of the
/// default layout has a positive area.
pub proof fn lemma_default_layout_valid(screen_width: u32, screen_height: u32)
    requires
        screen_width >= 7,
        screen_height >= 18,
    ensures
        default_layout(screen_width, screen_height).len() == 4,
        forall|i: int|
            0 <= i < 4 ==> (#[trigger] default_layout(screen_width, screen_height)[i]).valid(),
{
    assert(300 * screen_width / 1920 >= 1);
    assert(60 * screen_height / 1080 >= 1);
    assert forall|i: int| 0 <= i < 4 implies (#[trigger] default_layout(
        screen_width,
        screen_height,
    )[i]).valid() by {
        assert(base_layout()[i].width == 300 && base_layout()[i].height == 60);
    }
}

/// A length on a screen of twice the size is twice the length, or one more
/// where rounding down had cut a half off.
pub proof fn lemma_scaled_doubles(base: int, screen: int, reference: int, limit: int)
    requires
        0 <= base,
        0 <= screen,
        0 < reference,
        base * (2 * screen) / reference <= limit,
    ensures
        2 * scaled(base, screen, reference, limit) <= scaled(base, 2 * screen, reference, limit)
            <= 2 * scaled(base, screen, reference, limit) + 1,
{
    let a = base * screen;
    assert(base * (2 * screen) == 2 * a) by (nonlinear_arith)
        requires
            a == base * screen,
    ;
    assert(0 <= a) by (nonlinear_arith)
        requires
            a == base * screen,
            0 <= base,
            0 <= screen,
    ;
    vstd::arithmetic::div_mod::lemma_fundamental_div_mod(a, reference);
    vstd::arithmetic::div_mod::lemma_mod_bound(a, reference);
    let q = a / reference;
    let m = a % reference;
    if 2 * m < reference {
        assert(2 * a == (2 * q) * reference + 2 * m) by (nonlinear_arith)
            requires
                a == reference * q + m,
        ;
        vstd::arithmetic::div_mod::lemma_fundamental_div_mod_converse(
            2 * a,
            reference,
            2 * q,
            2 * m,
        );
    } else {
        assert(2 * a == (2 * q + 1) * reference + (2 * m - reference)) by (nonlinear_arith)
            requires
                a == reference * q + m,
        ;
        vstd::arithmetic::div_mod::lemma_fundamental_div_mod_converse(
            2 * a,
            reference,
            2 * q + 1,
            2 * m - reference,
        );
    }
    assert(q <= limit) by {
        assert(2 * q <= (2 * a) / reference);
        assert(0 <= q) by (nonlinear_arith)
            requires
                a == reference * q + m,
                0 <= a,
                m < reference,
                0 < reference,
        ;
    }
}

/// What the display backend answered when asked for the displays: the size of
/// each, the primary one first, or why it could not tell.
pub type DisplayAnswer = Result<Vec<(u32, u32)>, String>;

/// What the display backend answered when asked for the pixels of a
/// rectangle: four bytes for each pixel, row by row, or why it has none.
pub type GrabAnswer = Result<Vec<u8>, String>;

/// What an answer about the displays holds.
pub open spec fn display_view(displays: DisplayAnswer) -> Result<Seq<(u32, u32)>, Seq<char>> {
    match displays {
        Ok(list) => Ok(list@),
        Err(detail) => Err(detail@),
    }
}

/// The size of the primary display, or why there is none.
pub open spec fn primary_display(displays: Result<Seq<(u32, u32)>, Seq<char>>) -> Result<
    (u32, u32),
    CaptureErrorView,
> {
    match displays {
        Err(detail) => Err(CaptureErrorView::CaptureFailed(detail)),
        Ok(list) => if list.len() == 0 {
            Err(CaptureErrorView::NoScreensAvailable)
        } else {
            Ok(list[0])
        },
    }
}

/// The size of a result, or what its error holds.
pub open spec fn size_view(r: Result<(u32, u32), CaptureError>) -> Result<
    (u32, u32),
    CaptureErrorView,
> {
    match r {
        Ok(size) => Ok(size),
        Err(e) => Err(e@),
    }
}

/// The size of the primary display.
pub fn get_primary_screen_dimensions(displays: &DisplayAnswer) -> (r: Result<
    (u32, u32),
    CaptureError,
>)
    ensures
        size_view(r) == primary_display(display_view(*displays)),
{
    match displays {
        Err(detail) => Err(CaptureError::CaptureFailed(detail.clone())),
        Ok(list) => if list.len() == 0 {
            Err(CaptureError::NoScreensAvailable)
        } else {
            Ok(list[0])
        },
    }
}

/// Whether the region reaches beyond a screen of the given size.
pub open spec fn out_of_bounds(region: CaptureRegion, screen: (u32, u32)) -> bool {
    ||| region.x < 0
    ||| region.y < 0
    ||| region.x + region.width > screen.0
    ||| region.y + region.height > screen.1
}

/// Why a region cannot be captured, if it cannot: it has no area, the displays
/// could not be told, there is none, or the region reaches beyond the primary
/// one; in this order.
pub open spec fn capture_refusal(
    region: CaptureRegion,
    displays: Result<Seq<(u32, u32)>, Seq<char>>,
) -> Option<CaptureErrorView> {
    if !region.valid() {
        Some(CaptureErrorView::InvalidRegion)
    } else {
        match primary_display(displays) {
            Err(e) => Some(e),
            Ok(screen) => if out_of_bounds(region, screen) {
                Some(CaptureErrorView::RegionOutOfBounds)
            } else {
                None
            },
        }
    }
}

/// Decides whether the pixels of a region are asked for.
pub fn check_capture(region: &CaptureRegion, displays: &DisplayAnswer) -> (r: Result<
    (),
    CaptureError,
>)
    ensures
        match r {
            Ok(_) => capture_refusal(*region, display_view(*displays)) is None,
            Err(e) => capture_refusal(*region, display_view(*displays)) == Some(e@),
        },
{
    if !region.is_valid() {
        return Err(CaptureError::InvalidRegion);
    }
    let screen = match get_primary_screen_dimensions(displays) {
        Ok(screen) => screen,
        Err(e) => {
            return Err(e);
        },
    };
    if region.x < 0 || region.y < 0 || region.x as i64 + region.width as i64 > screen.0 as i64
        || region.y as i64 + region.height as i64 > screen.1 as i64 {
        return Err(CaptureError::RegionOutOfBounds);
    }
    Ok(())
}

/// What an image result holds.
pub open spec fn capture_view(r: Result<RgbaImage, CaptureError>) -> Result<
    RgbaView,
    CaptureErrorView,
> {
    match r {
        Ok(image) => Ok(image@),
        Err(e) => Err(e@),
    }
}

/// The image of a region from the pixels that the display gave for it: the
/// region's size and, of the bytes, as many as its pixels need.
pub open spec fn captured(region: CaptureRegion, grabbed: Result<Seq<u8>, Seq<char>>) -> Result<
    RgbaView,
    CaptureErrorView,
> {
    match grabbed {
        Err(detail) => Err(CaptureErrorView::CaptureFailed(detail)),
        Ok(bytes) => if bytes.len() < 4 * (region.width * region.height) {
            Err(CaptureErrorView::CaptureFailed("Failed to create image buffer"@))
        } else {
            Ok(
                RgbaView {
                    width: region.width as nat,
                    height: region.height as nat,
                    data: bytes.take(4 * (region.width * region.height)),
                },
            )
        },
    }
}

/// What an answer about pixels holds.
pub open spec fn grab_view(grabbed: GrabAnswer) -> Result<Seq<u8>, Seq<char>> {
    match grabbed {
        Ok(bytes) => Ok(bytes@),
        Err(detail) => Err(detail@),
    }
}

/// Makes the image of a region from the pixels that the display gave for it.
pub fn finish_capture(region: &CaptureRegion, grabbed: GrabAnswer) -> (r: Result<
    RgbaImage,
    CaptureError,
>)
    ensures
        capture_view(r) == captured(*region, grab_view(grabbed)),
{
    match grabbed {
        Err(detail) => Err(CaptureError::CaptureFailed(detail)),
        Ok(bytes) => {
            let mut bytes = bytes;
            let needed: u128 = 4 * (area(region.width, region.height) as u128);
            if (bytes.len() as u128) < needed {
                Err(CaptureError::CaptureFailed(String::from_str("Failed to create image buffer")))
            } else {
                bytes.truncate(needed as usize);
                match RgbaImage::from_raw(region.width, region.height, bytes) {
                    Some(image) => Ok(image),
                    None => Err(
                        CaptureError::CaptureFailed(
                            String::from_str("Failed to create image buffer"),
                        ),
                    ),
                }
            }
        },
    }
}

/// The outcome of capturing a region: the refusal, if the region cannot be
/// captured, else what is made of the display's pixels.
pub open spec fn capture_outcome(
    region: CaptureRegion,
    displays: Result<Seq<(u32, u32)>, Seq<char>>,
    grabbed: Result<Seq<u8>, Seq<char>>,
) -> Result<RgbaView, CaptureErrorView> {
    match capture_refusal(region, displays) {
        Some(e) => Err(e),
        None => captured(region, grabbed),
    }
}

/// The image of a region, from what the display answered: the refusal where
/// the region cannot be captured, whatever was given as its pixels.
pub fn capture_region(region: &CaptureRegion, displays: &DisplayAnswer, grabbed: GrabAnswer) -> (r:
    Result<RgbaImage, CaptureError>)
    ensures
        capture_view(r) == capture_outcome(*region, display_view(*displays), grab_view(grabbed)),
{
    match check_capture(region, displays) {
        Err(e) => Err(e),
        Ok(_) => finish_capture(region, grabbed),
    }
}

/// The image of each region, or why it has none, in the order of the regions,
/// from what the display answered: one answer for each region. Each outcome
/// is that of its own region and of the answer for it, whatever became of the
/// others.
pub fn capture_multiple_regions(
    regions: &[CaptureRegion],
    displays: &DisplayAnswer,
    grabbed: Vec<GrabAnswer>,
) -> (r: Vec<Result<RgbaImage, CaptureError>>)
    requires
        grabbed@.len() == regions@.len(),
    ensures
        r@.len() == regions@.len(),
        forall|i: int|
            0 <= i < regions@.len() ==> capture_view(#[trigger] r@[i]) == capture_outcome(
                regions@[i],
                display_view(*displays),
                grab_view(grabbed@[i]),
            ),
{
    let mut out: Vec<Result<RgbaImage, CaptureError>> = Vec::new();
    for answer in it: grabbed
        invariant
            it.seq() == grabbed@,
            grabbed@.len() == regions@.len(),
            out@.len() == it.index(),
            forall|i: int|
                0 <= i < it.index() ==> capture_view(#[trigger] out@[i]) == capture_outcome(
                    regions@[i],
                    display_view(*displays),
                    grab_view(grabbed@[i]),
                ),
    {
        let i = out.len();
        out.push(capture_region(&regions[i], displays, answer));
    }
    out
}

/// A region without area is refused as invalid, whatever the display
/// answered. A region within the primary screen whose pixels came in full is
/// captured, as an image of exactly its size.
pub proof fn lemma_capture_outcome(
    region: CaptureRegion,
    displays: Result<Seq<(u32, u32)>, Seq<char>>,
    grabbed: Result<Seq<u8>, Seq<char>>,
)
    ensures
        !region.valid() ==> capture_outcome(region, displays, grabbed) == Err::<
            RgbaView,
            CaptureErrorView,
        >(CaptureErrorView::InvalidRegion),
        region.valid() && displays is Ok && displays->Ok_0.len() > 0 && !out_of_bounds(
            region,
            displays->Ok_0[0],
        ) && grabbed is Ok && grabbed->Ok_0.len() >= 4 * (region.width * region.height) ==> {
            let outcome = capture_outcome(region, displays, grabbed);
            &&& outcome is Ok
            &&& outcome->Ok_0.width == region.width
            &&& outcome->Ok_0.height == region.height
            &&& outcome->Ok_0.wf()
        },
{
}

/// The regions to capture and the screen they were laid out for.
#[derive(Debug)]
pub struct CaptureConfig {
    pub regions: Vec<CaptureRegion>,
    pub screen_width: u32,
    pub screen_height: u32,
}

impl Clone for CaptureConfig {
    fn clone(&self) -> (r: Self)
        ensures
            r.regions@ == self.regions@,
            r.screen_width == self.screen_width,
            r.screen_height == self.screen_height,
    {
        CaptureConfig {
            regions: self.regions.clone(),
            screen_width: self.screen_width,
            screen_height: self.screen_height,
        }
    }
}

impl Default for CaptureConfig {
    /// The base layout on the reference screen.
    fn default() -> (r: Self)
        ensures
            r.regions@ == default_layout(REFERENCE_WIDTH, REFERENCE_HEIGHT),
            r.screen_width == REFERENCE_WIDTH,
            r.screen_height == REFERENCE_HEIGHT,
    {
        CaptureConfig {
            regions: get_default_card_regions(REFERENCE_WIDTH, REFERENCE_HEIGHT),
            screen_width: REFERENCE_WIDTH,
            screen_height: REFERENCE_HEIGHT,
        }
    }
}

impl CaptureConfig {
    /// The default layout for the screen whose size was asked for; the error
    /// of that question, if it failed.
    pub fn new(dimensions: Result<(u32, u32), CaptureError>) -> (r: Result<Self, CaptureError>)
        ensures
            match dimensions {
                Ok((width, height)) => r is Ok && r->Ok_0.regions@ == default_layout(width, height)
                    && r->Ok_0.screen_width == width && r->Ok_0.screen_height == height,
                Err(e) => r == Err::<Self, CaptureError>(e),
            },
    {
        match dimensions {
            Ok((screen_width, screen_height)) => Ok(
                CaptureConfig {
                    regions: get_default_card_regions(screen_width, screen_height),
                    screen_width,
                    screen_height,
                },
            ),
            Err(e) => Err(e),
        }
    }

    /// The given layout for the screen whose size was asked for; the error of
    /// that question, if it failed.
    pub fn with_regions(
        regions: Vec<CaptureRegion>,
        dimensions: Result<(u32, u32), CaptureError>,
    ) -> (r: Result<Self, CaptureError>)
        ensures
            match dimensions {
                Ok((width, height)) => r == Ok::<Self, CaptureError>(
                    CaptureConfig { regions, screen_width: width, screen_height: height },
                ),
                Err(e) => r == Err::<Self, CaptureError>(e),
            },
    {
        match dimensions {
            Ok((screen_width, screen_height)) => Ok(
                CaptureConfig { regions, screen_width, screen_height },
            ),
            Err(e) => Err(e),
        }
    }

    /// Replaces the layout.
    pub fn update_regions(&mut self, regions: Vec<CaptureRegion>)
        ensures
            *final(self) == (CaptureConfig { regions, ..*old(self) }),
    {
        self.regions = regions;
    }

    /// The regions that are captured, in their order.
    pub fn get_regions(&self) -> (r: &[CaptureRegion])
        ensures
            r@ == self.regions@,
    {
        self.regions.as_slice()
    }

    /// The image of each region of the layout, or why it has none, from what
    /// the display answered: one answer for each region.
    pub fn capture_all(&self, displays: &DisplayAnswer, grabbed: Vec<GrabAnswer>) -> (r: Vec<
        Result<RgbaImage, CaptureError>,
    >)
        requires
            grabbed@.len() == self.regions@.len(),
        ensures
            r@.len() == self.regions@.len(),
            forall|i: int|
                0 <= i < self.regions@.len() ==> capture_view(#[trigger] r@[i]) == capture_outcome(
                    self.regions@[i],
                    display_view(*displays),
                    grab_view(grabbed@[i]),
                ),
    {
        capture_multiple_regions(self.regions.as_slice(), displays, grabbed)
    }
}

} // verus!
