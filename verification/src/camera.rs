//! Light-direction camera of the Raspberry Pi: finds the brightest pixel of a
//! captured frame, away from the borders.
use vstd::prelude::*;

verus! {

/// Width of the frames requested from the camera.
pub const IMAGE_WIDTH: u32 = 2304;

/// Height of the frames requested from the camera.
pub const IMAGE_HEIGHT: u32 = 1296;

/// Percentage of each border left out of the search by default.
pub const DEFAULT_BORDER_PERCENT: u32 = 10;

/// `bytes` begins with the JPEG start-of-image marker `FF D8`.
pub open spec fn has_jpeg_start(bytes: Seq<u8>) -> bool {
    bytes.len() >= 2 && bytes[0] == 0xFFu8 && bytes[1] == 0xD8u8
}

/// Width and height that the frame header of the JPEG file `bytes` declares.
pub uninterp spec fn jpeg_frame_size(bytes: Seq<u8>) -> (u32, u32);

/// What holds of every result the decoder can give for `bytes`: a decoded
/// frame comes from a file with the start marker, has the size its header
/// declares, and holds at least `width * height` luma bytes.
pub open spec fn decoder_may_give(bytes: Seq<u8>, decoded: Result<(u32, u32, Vec<u8>), String>) -> bool {
    decoded is Ok ==> {
        &&& has_jpeg_start(bytes)
        &&& (decoded->Ok_0.0, decoded->Ok_0.1) == jpeg_frame_size(bytes)
        &&& decoded->Ok_0.0 * decoded->Ok_0.1 <= decoded->Ok_0.2@.len()
    }
}

/// Decodes `bytes` as a JPEG image with `image::load_from_memory_with_format`
/// and converts it to 8-bit luma with `DynamicImage::to_luma8`. Trusted: a
/// decoded frame comes from bytes that begin with the `FF D8` marker (the
/// decoder rejects any other start), its size is the one its frame header
/// declares (no orientation is applied), and its pixel buffer holds at least
/// `width * height` bytes (the `ImageBuffer` invariant); on failure the error's
/// display text is returned. Which files with that start decode, and to which
/// pixels, is left unsaid: the decoder picks its arithmetic by the machine's
/// features at run time, and a frame may exceed its allocation limit.
#[verifier::external_body]
fn decode_jpeg_luma(bytes: &[u8]) -> (r: Result<(u32, u32, Vec<u8>), String>)
    ensures
        r is Ok ==> has_jpeg_start(bytes@),
        r is Ok ==> (r->Ok_0.0, r->Ok_0.1) == jpeg_frame_size(bytes@),
        r is Ok ==> r->Ok_0.0 * r->Ok_0.1 <= r->Ok_0.2@.len(),
{
    match image::load_from_memory_with_format(bytes, image::ImageFormat::Jpeg) {
        Ok(img) => {
            let gray = img.to_luma8();
            let (w, h) = gray.dimensions();
            Ok((w, h, gray.into_raw()))
        },
        Err(e) => Err(e.to_string()),
    }
}

/// Why a frame could not be analysed.
#[derive(Debug, PartialEq, Eq)]
pub enum CameraError {
    /// The frame is not a decodable JPEG image (the decoder's message).
    Decode(String),
    /// The frame is too small, or too large, for the border exclusion.
    Geometry,
}

/// Brightest pixel found in a frame of `width` x `height` pixels.
#[derive(Clone, Copy, Debug, PartialEq, Eq, Structural)]
pub struct BrightSpot {
    pub x: u32,
    pub y: u32,
    pub width: u32,
    pub height: u32,
}

/// The camera of the Raspberry Pi demo.
#[derive(Clone, Copy, Debug, PartialEq, Eq, Structural)]
pub struct CameraSensor {
    /// Percentage of each border excluded from the analysis.
    pub border_percent: u32,
}

/// Pixels excluded on each side of a dimension of `len` pixels (at least one).
pub open spec fn border_of(len: u32, percent: u32) -> int {
    let b = (len * percent) / 100;
    if b >= 1 { b } else { 1 }
}

/// The border exclusion can be computed for a frame without overflow or underflow.
pub open spec fn border_fits(width: u32, height: u32, percent: u32) -> bool {
    &&& width * percent <= u32::MAX
    &&& height * percent <= u32::MAX
    &&& border_of(width, percent) <= width
    &&& border_of(height, percent) <= height
}

/// Luma of pixel `(x, y)` in a row-major buffer of rows of `width` bytes.
pub open spec fn luma_at(luma: Seq<u8>, width: u32, x: int, y: int) -> u8 {
    luma[y * width + x]
}

/// `(x, y)` lies in the searched window of the frame.
pub open spec fn in_window(width: u32, height: u32, percent: u32, x: int, y: int) -> bool {
    let bx = border_of(width, percent);
    let by = border_of(height, percent);
    bx <= x < width - bx && by <= y < height - by
}

/// `(x1, y1)` comes before `(x2, y2)` in row-major order.
pub open spec fn scans_before(x1: int, y1: int, x2: int, y2: int) -> bool {
    y1 < y2 || (y1 == y2 && x1 < x2)
}

/// `(x, y)` is the first pixel of the window, in row-major order, with the
/// highest luma, and that luma is not zero.
pub open spec fn is_brightest(
    luma: Seq<u8>,
    width: u32,
    height: u32,
    percent: u32,
    x: int,
    y: int,
) -> bool {
    &&& in_window(width, height, percent, x, y)
    &&& luma_at(luma, width, x, y) > 0
    &&& forall|a: int, b: int|
        #![trigger luma_at(luma, width, a, b)]
        in_window(width, height, percent, a, b) ==> luma_at(luma, width, a, b) <= luma_at(
            luma,
            width,
            x,
            y,
        ) && (scans_before(a, b, x, y) ==> luma_at(luma, width, a, b) < luma_at(luma, width, x, y))
}

/// Some pixel of the window is not black.
pub open spec fn has_light(luma: Seq<u8>, width: u32, height: u32, percent: u32) -> bool {
    exists|a: int, b: int|
        #![trigger luma_at(luma, width, a, b)]
        in_window(width, height, percent, a, b) && luma_at(luma, width, a, b) > 0
}

/// What the analysis of a decoded frame of `width` x `height` luma pixels
/// gives: the brightest spot of the window, with the frame's size, or a
/// geometry error when the border exclusion does not fit the frame.
pub open spec fn analysis_of(
    percent: u32,
    width: u32,
    height: u32,
    luma: Seq<u8>,
    result: Result<BrightSpot, CameraError>,
) -> bool {
    if border_fits(width, height, percent) {
        &&& result is Ok
        &&& result->Ok_0.width == width
        &&& result->Ok_0.height == height
        &&& has_light(luma, width, height, percent) ==> is_brightest(
            luma,
            width,
            height,
            percent,
            result->Ok_0.x as int,
            result->Ok_0.y as int,
        )
        &&& !has_light(luma, width, height, percent) ==> result->Ok_0.x == 0 && result->Ok_0.y == 0
    } else {
        result == Err::<BrightSpot, CameraError>(CameraError::Geometry)
    }
}

/// What analysing the decoder's result gives: its error message as a
/// `Decode` error, or the analysis of the decoded frame.
pub open spec fn decoded_outcome(
    percent: u32,
    decoded: Result<(u32, u32, Vec<u8>), String>,
    result: Result<BrightSpot, CameraError>,
) -> bool {
    match decoded {
        Err(m) => result == Err::<BrightSpot, CameraError>(CameraError::Decode(m)),
        Ok((w, h, px)) => analysis_of(percent, w, h, px@, result),
    }
}

impl CameraSensor {
    pub fn new() -> (s: Self)
        ensures
            s.border_percent == DEFAULT_BORDER_PERCENT,
    {
        CameraSensor { border_percent: DEFAULT_BORDER_PERCENT }
    }

    /// Pixels excluded on each side of a dimension of `len` pixels.
    pub fn border(&self, len: u32) -> (b: u32)
        requires
            len * self.border_percent <= u32::MAX,
        ensures
            b == border_of(len, self.border_percent),
    {
        let b = len * self.border_percent / 100;
        if b >= 1 {
            b
        } else {
            1
        }
    }

    /// The brightest pixel of a row-major luma frame, away from the borders:
    /// the first one in row-major order with the highest luma, or `(0, 0)` when
    /// the searched window is all black.
    pub fn brightest_pixel(&self, width: u32, height: u32, luma: &Vec<u8>) -> (spot: (u32, u32))
        requires
            border_fits(width, height, self.border_percent),
            width * height <= luma@.len(),
        ensures
            has_light(luma@, width, height, self.border_percent) ==> is_brightest(
                luma@,
                width,
                height,
                self.border_percent,
                spot.0 as int,
                spot.1 as int,
            ),
            !has_light(luma@, width, height, self.border_percent) ==> spot == (0u32, 0u32),
    {
        let p = self.border_percent;
        let bx = self.border(width);
        let by = self.border(height);
        let sx = bx;
        let ex = width - bx;
        let sy = by;
        let ey = height - by;
        let ghost l = luma@;
        let n = luma.len();
        let mut max_bright: u8 = 0;
        let mut max_x: u32 = 0;
        let mut max_y: u32 = 0;
        let mut y: u32 = sy;
        while y < ey
            invariant
                sy <= y,
                sy == border_of(height, p),
                ey == height - border_of(height, p),
                sx == border_of(width, p),
                ex == width - border_of(width, p),
                border_fits(width, height, p),
                p == self.border_percent,
                l == luma@,
                width * height <= l.len(),
                n == l.len(),
                y <= ey || sy >= ey,
                // pixels of the rows already scanned
                forall|a: int, b: int|
                    #![trigger luma_at(l, width, a, b)]
                    in_window(width, height, p, a, b) && b < y ==> luma_at(l, width, a, b)
                        <= max_bright,
                max_bright == 0 ==> max_x == 0 && max_y == 0,
                max_bright > 0 ==> in_window(width, height, p, max_x as int, max_y as int)
                    && max_y < y && luma_at(l, width, max_x as int, max_y as int) == max_bright
                    && forall|a: int, b: int|
                    #![trigger luma_at(l, width, a, b)]
                    in_window(width, height, p, a, b) && scans_before(
                        a,
                        b,
                        max_x as int,
                        max_y as int,
                    ) ==> luma_at(l, width, a, b) < max_bright,
            decreases ey - y,
        {
            let mut x: u32 = sx;
            while x < ex
                invariant
                    sx <= x,
                    x <= ex || x == sx,
                    sy <= y < ey,
                    sy == border_of(height, p),
                    ey == height - border_of(height, p),
                    sx == border_of(width, p),
                    ex == width - border_of(width, p),
                    border_fits(width, height, p),
                    l == luma@,
                    width * height <= l.len(),
                    n == l.len(),
                    forall|a: int, b: int|
                        #![trigger luma_at(l, width, a, b)]
                        in_window(width, height, p, a, b) && (b < y || (b == y && a < x))
                            ==> luma_at(l, width, a, b) <= max_bright,
                    max_bright == 0 ==> max_x == 0 && max_y == 0,
                    max_bright > 0 ==> in_window(width, height, p, max_x as int, max_y as int)
                        && scans_before(max_x as int, max_y as int, x as int, y as int)
                        && luma_at(l, width, max_x as int, max_y as int) == max_bright
                        && forall|a: int, b: int|
                        #![trigger luma_at(l, width, a, b)]
                        in_window(width, height, p, a, b) && scans_before(
                            a,
                            b,
                            max_x as int,
                            max_y as int,
                        ) ==> luma_at(l, width, a, b) < max_bright,
                decreases ex - x,
            {
                proof {
                    assert(y * width + x < width * height && y * width <= y * width + x)
                        by (nonlinear_arith)
                        requires
                            y < height,
                            x < width,
                    ;
                }
                let idx: usize = (y as usize) * (width as usize) + (x as usize);
                let brightness = luma[idx];
                assert(brightness == luma_at(l, width, x as int, y as int));
                if brightness > max_bright {
                    max_bright = brightness;
                    max_x = x;
                    max_y = y;
                }
                x = x + 1;
            }
            y = y + 1;
        }
        if max_bright > 0 {
            assert(is_brightest(l, width, height, p, max_x as int, max_y as int));
        } else {
            assert(!has_light(l, width, height, p));
        }
        (max_x, max_y)
    }

    /// Locates the brightest pixel of a decoded frame of `width` x `height`
    /// luma pixels, in row-major order.
    pub fn analyze_luma(&self, width: u32, height: u32, luma: &Vec<u8>) -> (result: Result<
        BrightSpot,
        CameraError,
    >)
        requires
            width * height <= luma@.len(),
        ensures
            analysis_of(self.border_percent, width, height, luma@, result),
    {
        if !self.border_ok(width, height) {
            return Err(CameraError::Geometry);
        }
        let (x, y) = self.brightest_pixel(width, height, luma);
        Ok(BrightSpot { x, y, width, height })
    }

    /// Analyses what the decoder returned: its error message becomes a
    /// `Decode` error, a decoded frame is analysed as by `analyze_luma`.
    pub fn analyze_decoded(&self, decoded: Result<(u32, u32, Vec<u8>), String>) -> (result: Result<
        BrightSpot,
        CameraError,
    >)
        requires
            decoded is Ok ==> decoded->Ok_0.0 * decoded->Ok_0.1 <= decoded->Ok_0.2@.len(),
        ensures
            decoded_outcome(self.border_percent, decoded, result),
    {
        match decoded {
            Err(msg) => Err(CameraError::Decode(msg)),
            Ok((w, h, px)) => self.analyze_luma(w, h, &px),
        }
    }

    /// Decodes a captured JPEG frame and locates its brightest pixel: the
    /// result is what `analyze_decoded` gives for a result that the decoder
    /// can give for these bytes. Bytes without the JPEG start marker give a
    /// `Decode` error; a decoded frame has the size its header declares.
    pub fn analyze_image(&self, jpeg: &[u8]) -> (result: Result<BrightSpot, CameraError>)
        ensures
            !has_jpeg_start(jpeg@) ==> result is Err && result->Err_0 is Decode,
            exists|decoded: Result<(u32, u32, Vec<u8>), String>|
                decoder_may_give(jpeg@, decoded) && #[trigger] decoded_outcome(
                    self.border_percent,
                    decoded,
                    result,
                ),
    {
        let decoded = decode_jpeg_luma(jpeg);
        let ghost d = decoded;
        let r = self.analyze_decoded(decoded);
        assert(decoder_may_give(jpeg@, d) && decoded_outcome(self.border_percent, d, r));
        r
    }

    /// Whether the border exclusion fits a frame of `width` x `height`.
    pub fn border_ok(&self, width: u32, height: u32) -> (ok: bool)
        ensures
            ok == border_fits(width, height, self.border_percent),
    {
        let p = self.border_percent as u64;
        assert((width as u64) * p <= u64::MAX && (height as u64) * p <= u64::MAX) by (nonlinear_arith)
            requires
                p <= u32::MAX,
                width <= u32::MAX,
                height <= u32::MAX,
        ;
        if (width as u64) * p > u32::MAX as u64 || (height as u64) * p > u32::MAX as u64 {
            return false;
        }
        let bx = self.border(width);
        let by = self.border(height);
        bx <= width && by <= height
    }
}

impl Default for CameraSensor {
    fn default() -> (s: Self)
        ensures
            s.border_percent == DEFAULT_BORDER_PERCENT,
    {
        Self::new()
    }
}

} // verus!
