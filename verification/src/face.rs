//! Face scanning: a skin-tone detector that finds a face-like box in a
//! portrait, and a perceptual fingerprint of the box (a 16x16 grayscale
//! thumbnail thresholded at its mean, hashed with SHA-256).

use vstd::prelude::*;
use vstd::string::*;
use vstd::utf8::encode_utf8;

use crate::digest::{is_lower_hex_digit, sha256_hex, sha256_hex_of_str, sha256_hex_text};
use crate::text::push_char;

verus! {

// ---------------------------------------------------------------------------
// Pixel buffers
// ---------------------------------------------------------------------------

/// An 8-bit RGB image: `data` holds `width * height` pixels row by row, three
/// bytes (red, green, blue) each.
#[derive(Clone, Debug)]
pub struct RgbPixels {
    pub width: u32,
    pub height: u32,
    pub data: Vec<u8>,
}

/// An 8-bit grayscale image: `data` holds `width * height` bytes row by row.
pub struct GrayPixels {
    pub width: u32,
    pub height: u32,
    pub data: Vec<u8>,
}

impl RgbPixels {
    /// The buffer holds exactly three bytes per pixel.
    pub open spec fn wf(&self) -> bool {
        self.data@.len() == 3 * (self.width as int) * (self.height as int)
    }
}

impl GrayPixels {
    /// The buffer holds exactly one byte per pixel.
    pub open spec fn wf(&self) -> bool {
        self.data@.len() == (self.width as int) * (self.height as int)
    }
}

/// Index of the first byte of row `y` in an RGB buffer of width `w`.
pub open spec fn row_base(w: int, y: int) -> int {
    3 * w * y
}

/// A rectangle of an image, in pixels.
#[derive(Clone, Copy, Debug, PartialEq, Eq, Structural)]
pub struct FaceBox {
    pub x: u32,
    pub y: u32,
    pub width: u32,
    pub height: u32,
}

/// Why a face scan failed.
#[derive(Clone, Copy, Debug, PartialEq, Eq, Structural)]
pub enum FaceScanError {
    /// The bytes are not an image in a supported format.
    Decode,
    /// The image is narrower or lower than 32 pixels.
    TooSmall,
    /// Too few skin-tone pixels in the portrait region.
    NoFace,
}

// ---------------------------------------------------------------------------
// Skin tone and the portrait region
// ---------------------------------------------------------------------------

/// The skin-tone rule on one RGB pixel.
pub open spec fn skin_tone(r: u8, g: u8, b: u8) -> bool {
    let (r, g, b) = (r as int, g as int, b as int);
    let mx = if r >= g && r >= b {
        r
    } else if g >= b {
        g
    } else {
        b
    };
    let mn = if r <= g && r <= b {
        r
    } else if g <= b {
        g
    } else {
        b
    };
    &&& r > 95
    &&& g > 40
    &&& b > 20
    &&& mx - mn > 15
    &&& (r - g > 15 || g - r > 15)
    &&& r > g
    &&& r > b
}

/// The central region of a portrait: a tenth of the width and a twentieth of
/// the height are cut off each side.
pub open spec fn portrait_region(x: u32, y: u32, w: u32, h: u32) -> bool {
    let left = w / 10;
    let top = h / 20;
    x >= left && x <= w - left && y >= top && y <= h - top
}

/// Whether `(x, y)` lies in the central region of a `w` by `h` portrait.
pub fn is_in_portrait_region(x: u32, y: u32, w: u32, h: u32) -> (res: bool)
    ensures
        res == portrait_region(x, y, w, h),
{
    let left = w / 10;
    let right = w - left;
    let top = h / 20;
    let bottom = h - top;
    x >= left && x <= right && y >= top && y <= bottom
}

/// Whether an RGB pixel has a skin tone.
pub fn is_skin_tone(r: u8, g: u8, b: u8) -> (res: bool)
    ensures
        res == skin_tone(r, g, b),
{
    let r = r as i16;
    let g = g as i16;
    let b = b as i16;
    let mx = if r >= g && r >= b {
        r
    } else if g >= b {
        g
    } else {
        b
    };
    let mn = if r <= g && r <= b {
        r
    } else if g <= b {
        g
    } else {
        b
    };
    let diff = if r >= g {
        r - g
    } else {
        g - r
    };
    r > 95 && g > 40 && b > 20 && mx - mn > 15 && diff > 15 && r > g && r > b
}

// ---------------------------------------------------------------------------
// Detection
// ---------------------------------------------------------------------------

/// Extent and count of the skin-tone pixels seen so far.
pub struct ScanStats {
    pub min_x: u32,
    pub min_y: u32,
    pub max_x: u32,
    pub max_y: u32,
    pub hits: nat,
}

/// Pixel `(x, y)` of an RGB buffer of width `w` is a skin-tone pixel in the portrait region.
pub open spec fn face_pixel(w: u32, h: u32, data: Seq<u8>, x: u32, y: u32) -> bool {
    let i = row_base(w as int, y as int) + 3 * x;
    skin_tone(data[i], data[i + 1], data[i + 2]) && portrait_region(x, y, w, h)
}

/// The statistics after pixel `(x, y)` has been looked at.
pub open spec fn stats_step(s: ScanStats, w: u32, h: u32, data: Seq<u8>, x: u32, y: u32) -> ScanStats {
    if face_pixel(w, h, data, x, y) {
        ScanStats {
            min_x: if x < s.min_x { x } else { s.min_x },
            min_y: if y < s.min_y { y } else { s.min_y },
            max_x: if x > s.max_x { x } else { s.max_x },
            max_y: if y > s.max_y { y } else { s.max_y },
            hits: s.hits + 1,
        }
    } else {
        s
    }
}

/// The statistics over all rows above `y` and the first `x` pixels of row
/// `y`, in the order `enumerate_pixels` visits them.
pub open spec fn stats_at(w: u32, h: u32, data: Seq<u8>, y: nat, x: nat) -> ScanStats
    decreases y, x,
{
    if x == 0 {
        if y == 0 {
            ScanStats { min_x: w, min_y: h, max_x: 0, max_y: 0, hits: 0 }
        } else {
            stats_at(w, h, data, (y - 1) as nat, w as nat)
        }
    } else {
        stats_step(stats_at(w, h, data, y, (x - 1) as nat), w, h, data, (x - 1) as u32, y as u32)
    }
}

/// `a - b`, or 0 when `b > a`.
pub open spec fn sat_sub(a: int, b: int) -> int {
    if a >= b {
        a - b
    } else {
        0
    }
}

/// The larger of two integers.
pub open spec fn max_int(a: int, b: int) -> int {
    if a >= b {
        a
    } else {
        b
    }
}

/// The smaller of two integers.
pub open spec fn min_int(a: int, b: int) -> int {
    if a <= b {
        a
    } else {
        b
    }
}

/// The box around the skin-tone pixels, padded by a third of its width on each
/// side and half its height above and below, clipped to the image.
pub open spec fn padded_box(s: ScanStats, w: u32, h: u32) -> FaceBox {
    let raw_w = max_int(sat_sub(s.max_x as int, s.min_x as int), 1);
    let raw_h = max_int(sat_sub(s.max_y as int, s.min_y as int), 1);
    let pad_x = raw_w / 3;
    let pad_y = raw_h / 2;
    let x = sat_sub(s.min_x as int, pad_x);
    let y = sat_sub(s.min_y as int, pad_y);
    FaceBox {
        x: x as u32,
        y: y as u32,
        width: min_int(raw_w + 2 * pad_x, w - x) as u32,
        height: min_int(raw_h + 2 * pad_y, h - y) as u32,
    }
}

/// The fewest skin-tone pixels that count as a face: one in 300 pixels, and at least 40.
pub open spec fn min_face_hits(w: u32, h: u32) -> int {
    max_int((w as int) * (h as int) / 300, 40)
}

/// The face box of an RGB image, or why there is none.
pub open spec fn detect_face(w: u32, h: u32, data: Seq<u8>) -> Result<FaceBox, FaceScanError> {
    if w < 32 || h < 32 {
        Err(FaceScanError::TooSmall)
    } else {
        let s = stats_at(w, h, data, h as nat, 0);
        if s.hits < min_face_hits(w, h) {
            Err(FaceScanError::NoFace)
        } else {
            Ok(padded_box(s, w, h))
        }
    }
}

proof fn lemma_pixel_bounds(w: u32, h: u32, x: u32, y: u32)
    requires
        x < w,
        y < h,
    ensures
        row_base(w as int, y as int) + 3 * x + 2 < 3 * (w as int) * (h as int),
        row_base(w as int, y as int + 1) == row_base(w as int, y as int) + 3 * w,
        row_base(w as int, y as int) + 3 * w <= 3 * (w as int) * (h as int),
{
    assert(3 * (w as int) * (y as int) + 3 * (x as int) + 2 < 3 * (w as int) * (h as int)) by (nonlinear_arith)
        requires
            x < w,
            y < h,
    ;
    assert(3 * (w as int) * (y as int + 1) == 3 * (w as int) * (y as int) + 3 * (w as int)) by (nonlinear_arith);
    assert(3 * (w as int) * (y as int) + 3 * (w as int) <= 3 * (w as int) * (h as int)) by (nonlinear_arith)
        requires
            y < h,
    ;
}

/// Finds the face box of a portrait: the padded box around the skin-tone
/// pixels of the central region, when there are enough of them.
pub fn detect_skin_tone_face_candidate(img: &RgbPixels) -> (res: Result<FaceBox, FaceScanError>)
    requires
        img.wf(),
    ensures
        res == detect_face(img.width, img.height, img.data@),
{
    let w = img.width;
    let h = img.height;
    if w < 32 || h < 32 {
        return Err(FaceScanError::TooSmall);
    }
    let ghost data = img.data@;
    let mut min_x = w;
    let mut min_y = h;
    let mut max_x: u32 = 0;
    let mut max_y: u32 = 0;
    let mut hits: u64 = 0;
    let mut y: u32 = 0;
    let mut row: usize = 0;
    let n = img.data.len();
    assert(3 * (w as int) <= 3 * (w as int) * (h as int)) by (nonlinear_arith)
        requires
            h >= 32,
    ;
    let row_len: usize = 3 * (w as usize);
    while y < h
        invariant
            w == img.width,
            h == img.height,
            data == img.data@,
            img.wf(),
            32 <= w,
            32 <= h,
            y <= h,
            row_len == 3 * w,
            row == row_base(w as int, y as int),
            row <= data.len(),
            n == data.len(),
            min_x <= w,
            min_y <= h,
            3 * hits <= row,
            stats_at(w, h, data, y as nat, 0) == (ScanStats {
                min_x,
                min_y,
                max_x,
                max_y,
                hits: hits as nat,
            }),
        decreases h - y,
    {
        let mut x: u32 = 0;
        let mut idx = row;
        proof {
            if y > 0 {
                assert(stats_at(w, h, data, y as nat, 0) == stats_at(w, h, data, (y - 1) as nat, w as nat));
            }
        }
        while x < w
            invariant
                w == img.width,
                h == img.height,
                data == img.data@,
                img.wf(),
                32 <= w,
                y < h,
                x <= w,
                row == row_base(w as int, y as int),
                idx == row + 3 * x,
                idx <= data.len(),
                n == data.len(),
                min_x <= w,
                min_y <= h,
                3 * hits <= idx,
                (if x == 0 {
                    stats_at(w, h, data, y as nat, 0)
                } else {
                    stats_at(w, h, data, y as nat, x as nat)
                }) == (ScanStats { min_x, min_y, max_x, max_y, hits: hits as nat }),
            decreases w - x,
        {
            proof {
                lemma_pixel_bounds(w, h, x, y);
            }
            let r = img.data[idx];
            let g = img.data[idx + 1];
            let b = img.data[idx + 2];
            if is_skin_tone(r, g, b) && is_in_portrait_region(x, y, w, h) {
                if x < min_x {
                    min_x = x;
                }
                if y < min_y {
                    min_y = y;
                }
                if x > max_x {
                    max_x = x;
                }
                if y > max_y {
                    max_y = y;
                }
                hits = hits + 1;
            }
            x = x + 1;
            idx = idx + 3;
        }
        proof {
            lemma_pixel_bounds(w, h, 0, y);
        }
        row = row + row_len;
        y = y + 1;
    }
    let min_hits: u64 = {
        assert((w as int) * (h as int) <= u64::MAX) by (nonlinear_arith)
            requires
                w <= u32::MAX,
                h <= u32::MAX,
        ;
        let q = (w as u64) * (h as u64) / 300;
        if q >= 40 {
            q
        } else {
            40
        }
    };
    if hits < min_hits {
        return Err(FaceScanError::NoFace);
    }
    let raw_width: u64 = if max_x > min_x && max_x - min_x >= 1 {
        (max_x - min_x) as u64
    } else {
        1
    };
    let raw_height: u64 = if max_y > min_y && max_y - min_y >= 1 {
        (max_y - min_y) as u64
    } else {
        1
    };
    let pad_x = raw_width / 3;
    let pad_y = raw_height / 2;
    let bx: u32 = if (min_x as u64) >= pad_x {
        (min_x as u64 - pad_x) as u32
    } else {
        0
    };
    let by: u32 = if (min_y as u64) >= pad_y {
        (min_y as u64 - pad_y) as u32
    } else {
        0
    };
    let room_x = (w - bx) as u64;
    let room_y = (h - by) as u64;
    let want_w = raw_width + pad_x * 2;
    let want_h = raw_height + pad_y * 2;
    let width = if want_w <= room_x {
        want_w
    } else {
        room_x
    };
    let height = if want_h <= room_y {
        want_h
    } else {
        room_y
    };
    Ok(FaceBox { x: bx, y: by, width: width as u32, height: height as u32 })
}

// ---------------------------------------------------------------------------
// Image operations of the `image` crate
// ---------------------------------------------------------------------------

/// The RGB8 pixels `image::load_from_memory(bytes)?.to_rgb8()` yields, as
/// `(width, height, data)`, or `None` when the bytes do not decode.
pub uninterp spec fn decoded_rgb8(bytes: Seq<u8>) -> Option<(u32, u32, Seq<u8>)>;

/// The luma of one sRGB pixel as the `image` crate computes it: the weighted
/// sum `2126 r + 7152 g + 722 b`, divided by 10000 and rounded down.
pub open spec fn luma_of(r: u8, g: u8, b: u8) -> u8 {
    ((2126 * (r as int) + 7152 * (g as int) + 722 * (b as int)) / 10000) as u8
}

/// The luma bytes of a `w` by `h` RGB8 buffer, pixel by pixel in the same order.
pub open spec fn grayscale_luma(w: u32, h: u32, rgb: Seq<u8>) -> Seq<u8> {
    Seq::new(((w as int) * (h as int)) as nat, |i: int| luma_of(rgb[3 * i], rgb[3 * i + 1], rgb[3 * i + 2]))
}

/// The luma bytes `image::imageops::resize` with `FilterType::Triangle` computes
/// when scaling a `w` by `h` grayscale buffer to `nw` by `nh`.
pub uninterp spec fn resize_triangle(w: u32, h: u32, luma: Seq<u8>, nw: u32, nh: u32) -> Seq<u8>;

/// Calls `image::load_from_memory` and `DynamicImage::to_rgb8`; claims the
/// result is `decoded_rgb8(bytes)`, with three bytes per pixel.
#[verifier::external_body]
pub(crate) fn decode_rgb8(bytes: &[u8]) -> (res: Option<RgbPixels>)
    ensures
        res is None <==> decoded_rgb8(bytes@) is None,
        res matches Some(img) ==> decoded_rgb8(bytes@) == Some((img.width, img.height, img.data@)),
        res matches Some(img) ==> img.wf(),
{
    match image::load_from_memory(bytes) {
        Ok(image) => {
            let rgb = image.to_rgb8();
            Some(RgbPixels { width: rgb.width(), height: rgb.height(), data: rgb.into_raw() })
        },
        Err(_) => None,
    }
}

/// The rectangle `image::imageops::crop_imm` keeps: the corner is clamped into
/// the image and the size to what remains right of and below it.
pub open spec fn crop_dims(iw: u32, ih: u32, b: FaceBox) -> (u32, u32, u32, u32) {
    let cx = if b.x <= iw { b.x } else { iw };
    let cy = if b.y <= ih { b.y } else { ih };
    let cw = if b.width <= iw - cx { b.width } else { (iw - cx) as u32 };
    let ch = if b.height <= ih - cy { b.height } else { (ih - cy) as u32 };
    (cx, cy, cw, ch)
}

/// The RGB samples of the `cw` by `ch` rectangle at `(cx, cy)` of an image of width `iw`.
pub open spec fn crop_data<T>(iw: u32, data: Seq<T>, cx: u32, cy: u32, cw: u32, ch: u32) -> Seq<T> {
    Seq::new(
        (3 * (cw as int) * (ch as int)) as nat,
        |k: int|
            {
                let p = k / 3;
                data[row_base(iw as int, cy + p / (cw as int)) + 3 * (cx + p % (cw as int)) + k % 3]
            },
    )
}

/// Calls `image::imageops::crop_imm(..).to_image()`; claims it copies the
/// clamped rectangle `crop_dims` row by row.
#[verifier::external_body]
fn crop_rgb(img: &RgbPixels, b: FaceBox) -> (res: RgbPixels)
    requires
        img.wf(),
    ensures
        res.width == crop_dims(img.width, img.height, b).2,
        res.height == crop_dims(img.width, img.height, b).3,
        res.data@ == crop_data(
            img.width,
            img.data@,
            crop_dims(img.width, img.height, b).0,
            crop_dims(img.width, img.height, b).1,
            crop_dims(img.width, img.height, b).2,
            crop_dims(img.width, img.height, b).3,
        ),
        res.wf(),
{
    let buf = image::RgbImage::from_raw(img.width, img.height, img.data.clone()).unwrap();
    let out = image::imageops::crop_imm(&buf, b.x, b.y, b.width, b.height).to_image();
    RgbPixels { width: out.width(), height: out.height(), data: out.into_raw() }
}

/// Calls `image::imageops::grayscale`; claims the result has the same size and,
/// pixel by pixel, the luma `luma_of` gives.
#[verifier::external_body]
fn grayscale_rgb(img: &RgbPixels) -> (res: GrayPixels)
    requires
        img.wf(),
    ensures
        res.width == img.width,
        res.height == img.height,
        res.data@ == grayscale_luma(img.width, img.height, img.data@),
        res.wf(),
{
    let buf = image::RgbImage::from_raw(img.width, img.height, img.data.clone()).unwrap();
    let out = image::imageops::grayscale(&buf);
    GrayPixels { width: out.width(), height: out.height(), data: out.into_raw() }
}

/// Calls `image::imageops::resize` with `FilterType::Triangle`; claims the
/// result is `nw` by `nh` with the bytes `resize_triangle` names.
#[verifier::external_body]
fn resize_gray_triangle(img: &GrayPixels, nw: u32, nh: u32) -> (res: GrayPixels)
    requires
        img.wf(),
    ensures
        res.width == nw,
        res.height == nh,
        res.data@ == resize_triangle(img.width, img.height, img.data@, nw, nh),
        res.wf(),
{
    let buf = image::GrayImage::from_raw(img.width, img.height, img.data.clone()).unwrap();
    let out = image::imageops::resize(&buf, nw, nh, image::imageops::FilterType::Triangle);
    GrayPixels { width: out.width(), height: out.height(), data: out.into_raw() }
}

// ---------------------------------------------------------------------------
// Images with 16-bit channels
// ---------------------------------------------------------------------------

/// A 16-bit RGB image: `data` holds `width * height` pixels row by row, three
/// samples (red, green, blue) each.
pub struct Rgb16Pixels {
    pub width: u32,
    pub height: u32,
    pub data: Vec<u16>,
}

/// A 16-bit grayscale image: `data` holds `width * height` samples row by row.
pub struct Gray16Pixels {
    pub width: u32,
    pub height: u32,
    pub data: Vec<u16>,
}

impl Rgb16Pixels {
    /// The buffer holds exactly three samples per pixel.
    pub open spec fn wf(&self) -> bool {
        self.data@.len() == 3 * (self.width as int) * (self.height as int)
    }
}

impl Gray16Pixels {
    /// The buffer holds exactly one sample per pixel.
    pub open spec fn wf(&self) -> bool {
        self.data@.len() == (self.width as int) * (self.height as int)
    }
}

/// The 16-bit RGB samples `image::load_from_memory(bytes)?.to_rgb16()` yields,
/// as `(width, height, data)`, when the decoded image has 16-bit channels
/// (gray, gray with alpha, RGB or RGBA); `None` for any other image or when
/// the bytes do not decode.
pub uninterp spec fn decoded_rgb16(bytes: Seq<u8>) -> Option<(u32, u32, Seq<u16>)>;

/// The luma `image` computes for a 16-bit sRGB pixel: `2126 r + 7152 g + 722 b`
/// divided by 10000, rounded down.
pub open spec fn luma16_of(r: u16, g: u16, b: u16) -> u16 {
    ((2126 * (r as int) + 7152 * (g as int) + 722 * (b as int)) / 10000) as u16
}

/// The luma samples of a `w` by `h` 16-bit RGB buffer, pixel by pixel.
pub open spec fn grayscale_luma16(w: u32, h: u32, rgb: Seq<u16>) -> Seq<u16> {
    Seq::new(((w as int) * (h as int)) as nat, |i: int| luma16_of(rgb[3 * i], rgb[3 * i + 1], rgb[3 * i + 2]))
}

/// The samples `image::imageops::resize` with `FilterType::Triangle` computes
/// when scaling a `w` by `h` 16-bit grayscale buffer to `nw` by `nh`.
pub uninterp spec fn resize_triangle16(w: u32, h: u32, luma: Seq<u16>, nw: u32, nh: u32) -> Seq<u16>;

/// The 8-bit luma `DynamicImage::ImageLuma16(..).to_luma8()` gives for a `w`
/// by `h` 16-bit grayscale buffer.
pub uninterp spec fn luma8_of_luma16(w: u32, h: u32, luma: Seq<u16>) -> Seq<u8>;

/// Calls `image::load_from_memory` and, when the image has 16-bit channels,
/// `DynamicImage::to_rgb16`; claims the result is `decoded_rgb16(bytes)`.
#[verifier::external_body]
fn decode_rgb16(bytes: &[u8]) -> (res: Option<Rgb16Pixels>)
    ensures
        res is None <==> decoded_rgb16(bytes@) is None,
        res matches Some(img) ==> decoded_rgb16(bytes@) == Some((img.width, img.height, img.data@)),
        res matches Some(img) ==> img.wf(),
{
    match image::load_from_memory(bytes) {
        Ok(
            image @ (image::DynamicImage::ImageLuma16(_)
            | image::DynamicImage::ImageLumaA16(_)
            | image::DynamicImage::ImageRgb16(_)
            | image::DynamicImage::ImageRgba16(_)),
        ) => {
            let rgb = image.to_rgb16();
            Some(Rgb16Pixels { width: rgb.width(), height: rgb.height(), data: rgb.into_raw() })
        },
        _ => None,
    }
}

/// Calls `image::imageops::crop_imm(..).to_image()` on a 16-bit RGB buffer;
/// claims it copies the clamped rectangle `crop_dims` row by row.
#[verifier::external_body]
fn crop_rgb16(img: &Rgb16Pixels, b: FaceBox) -> (res: Rgb16Pixels)
    requires
        img.wf(),
    ensures
        res.width == crop_dims(img.width, img.height, b).2,
        res.height == crop_dims(img.width, img.height, b).3,
        res.data@ == crop_data(
            img.width,
            img.data@,
            crop_dims(img.width, img.height, b).0,
            crop_dims(img.width, img.height, b).1,
            crop_dims(img.width, img.height, b).2,
            crop_dims(img.width, img.height, b).3,
        ),
        res.wf(),
{
    let buf = image::ImageBuffer::<image::Rgb<u16>, Vec<u16>>::from_raw(img.width, img.height, img.data.clone()).unwrap();
    let out = image::imageops::crop_imm(&buf, b.x, b.y, b.width, b.height).to_image();
    Rgb16Pixels { width: out.width(), height: out.height(), data: out.into_raw() }
}

/// Calls `image::imageops::grayscale` on a 16-bit RGB buffer; claims the
/// result has the same size and, pixel by pixel, the luma `luma16_of` gives.
#[verifier::external_body]
fn grayscale_rgb16(img: &Rgb16Pixels) -> (res: Gray16Pixels)
    requires
        img.wf(),
    ensures
        res.width == img.width,
        res.height == img.height,
        res.data@ == grayscale_luma16(img.width, img.height, img.data@),
        res.wf(),
{
    let buf = image::ImageBuffer::<image::Rgb<u16>, Vec<u16>>::from_raw(img.width, img.height, img.data.clone()).unwrap();
    let out = image::imageops::grayscale(&buf);
    Gray16Pixels { width: out.width(), height: out.height(), data: out.into_raw() }
}

/// Calls `image::imageops::resize` with `FilterType::Triangle` on a 16-bit
/// grayscale buffer; claims the result is `nw` by `nh` with the samples
/// `resize_triangle16` names.
#[verifier::external_body]
fn resize_gray16_triangle(img: &Gray16Pixels, nw: u32, nh: u32) -> (res: Gray16Pixels)
    requires
        img.wf(),
    ensures
        res.width == nw,
        res.height == nh,
        res.data@ == resize_triangle16(img.width, img.height, img.data@, nw, nh),
        res.wf(),
{
    let buf = image::ImageBuffer::<image::Luma<u16>, Vec<u16>>::from_raw(img.width, img.height, img.data.clone()).unwrap();
    let out = image::imageops::resize(&buf, nw, nh, image::imageops::FilterType::Triangle);
    Gray16Pixels { width: out.width(), height: out.height(), data: out.into_raw() }
}

/// Calls `DynamicImage::to_luma8` on a 16-bit grayscale image; claims the
/// result has the same size and the bytes `luma8_of_luma16` names.
#[verifier::external_body]
fn narrow_luma16(img: &Gray16Pixels) -> (res: GrayPixels)
    requires
        img.wf(),
    ensures
        res.width == img.width,
        res.height == img.height,
        res.data@ == luma8_of_luma16(img.width, img.height, img.data@),
        res.wf(),
{
    let buf = image::ImageBuffer::<image::Luma<u16>, Vec<u16>>::from_raw(img.width, img.height, img.data.clone()).unwrap();
    let out = image::DynamicImage::ImageLuma16(buf).to_luma8();
    GrayPixels { width: out.width(), height: out.height(), data: out.into_raw() }
}

// ---------------------------------------------------------------------------
// Fingerprint
// ---------------------------------------------------------------------------

/// Sum of the bytes of `s`.
pub open spec fn byte_sum(s: Seq<u8>) -> nat
    decreases s.len(),
{
    if s.len() == 0 {
        0
    } else {
        byte_sum(s.drop_last()) + (s.last() as nat)
    }
}

/// One bit per luma byte: `'1'` when the byte is at least the mean of the 256
/// bytes (the sum divided by 256), else `'0'`.
pub open spec fn luma_bits(luma: Seq<u8>) -> Seq<char> {
    Seq::new(luma.len(), |i: int| if luma[i] as int >= byte_sum(luma) as int / 256 { '1' } else { '0' })
}

/// The 16x16 grayscale thumbnail of the face box.
pub open spec fn face_thumbnail(w: u32, h: u32, data: Seq<u8>, b: FaceBox) -> Seq<u8> {
    let (cx, cy, cw, ch) = crop_dims(w, h, b);
    resize_triangle(cw, ch, grayscale_luma(cw, ch, crop_data(w, data, cx, cy, cw, ch)), 16, 16)
}

/// The 256-bit signature of the face box.
pub open spec fn face_signature(w: u32, h: u32, data: Seq<u8>, b: FaceBox) -> Seq<char> {
    luma_bits(face_thumbnail(w, h, data, b))
}

/// The 16x16 8-bit thumbnail of the face box of a 16-bit image: cropped,
/// turned to 16-bit luma, resized, then narrowed to 8 bits.
pub open spec fn face_thumbnail16(w: u32, h: u32, data: Seq<u16>, b: FaceBox) -> Seq<u8> {
    let (cx, cy, cw, ch) = crop_dims(w, h, b);
    luma8_of_luma16(16, 16, resize_triangle16(cw, ch, grayscale_luma16(cw, ch, crop_data(w, data, cx, cy, cw, ch)), 16, 16))
}

/// The 256-bit signature of the face box of a 16-bit image.
pub open spec fn face_signature16(w: u32, h: u32, data: Seq<u16>, b: FaceBox) -> Seq<char> {
    luma_bits(face_thumbnail16(w, h, data, b))
}

/// The signature of the face box `b` of the image `bytes`, whose 8-bit RGB
/// pixels are `(w, h, d)`: taken at 16 bits when the image has 16-bit channels.
pub open spec fn scan_signature(bytes: Seq<u8>, w: u32, h: u32, d: Seq<u8>, b: FaceBox) -> Seq<char> {
    match decoded_rgb16(bytes) {
        Some((w16, h16, d16)) => face_signature16(w16, h16, d16, b),
        None => face_signature(w, h, d, b),
    }
}

/// The face encoding: `phash256:` and the SHA-256 hex of the signature.
pub open spec fn face_encoding(signature: Seq<char>) -> Seq<char> {
    "phash256:"@ + sha256_hex_text(encode_utf8(signature))
}

/// The text is made of `'0'` and `'1'` only.
pub open spec fn is_bit_text(s: Seq<char>) -> bool {
    forall|i: int| 0 <= i < s.len() ==> (#[trigger] s[i] == '0' || s[i] == '1')
}

/// The shape of a face encoding: `phash256:` and 64 lowercase hexadecimal digits.
pub open spec fn is_encoding_text(e: Seq<char>) -> bool {
    &&& e.len() == 73
    &&& e.take(9) == "phash256:"@
    &&& forall|i: int| 9 <= i < 73 ==> is_lower_hex_digit(#[trigger] e[i])
}

/// The 256-bit signature of a 16x16 grayscale thumbnail: each pixel gives
/// `'1'` when it is at least the mean luma (rounded down), else `'0'`.
pub fn thumbnail_signature(thumb: &GrayPixels) -> (res: String)
    requires
        thumb.width == 16,
        thumb.height == 16,
        thumb.wf(),
    ensures
        res@ == luma_bits(thumb.data@),
        res@.len() == 256,
        is_bit_text(res@),
{
    let ghost luma = thumb.data@;
    assert(luma.len() == 256);
    let mut sum: u32 = 0;
    let mut i: usize = 0;
    while i < 256
        invariant
            luma == thumb.data@,
            luma.len() == 256,
            i <= 256,
            sum == byte_sum(luma.take(i as int)),
            sum <= 255 * i,
        decreases 256 - i,
    {
        proof {
            assert(luma.take(i + 1).drop_last() == luma.take(i as int));
        }
        sum = sum + thumb.data[i] as u32;
        i = i + 1;
    }
    assert(luma.take(256) == luma);
    let avg = sum / 256;
    let mut bits = String::new();
    let mut j: usize = 0;
    while j < 256
        invariant
            luma == thumb.data@,
            luma.len() == 256,
            avg == byte_sum(luma) / 256,
            j <= 256,
            bits@ == luma_bits(luma).take(j as int),
        decreases 256 - j,
    {
        let c = if thumb.data[j] as u32 >= avg {
            '1'
        } else {
            '0'
        };
        push_char(&mut bits, c);
        proof {
            assert(luma_bits(luma).take(j + 1) == luma_bits(luma).take(j as int).push(c));
        }
        j = j + 1;
    }
    assert(luma_bits(luma).take(256) == luma_bits(luma));
    bits
}

/// The encoding of a signature: `phash256:` and the SHA-256 hex of its text.
pub fn signature_encoding(signature: &str) -> (res: String)
    ensures
        res@ == face_encoding(signature@),
        is_encoding_text(res@),
{
    let digest = sha256_hex_of_str(signature);
    let mut encoding = String::from_str("phash256:");
    encoding.append(digest.as_str());
    proof {
        reveal_strlit("phash256:");
        assert(encoding@.take(9) == "phash256:"@);
        assert forall|i: int| 9 <= i < 73 implies is_lower_hex_digit(#[trigger] encoding@[i]) by {
            assert(encoding@[i] == digest@[i - 9]);
        }
    }
    encoding
}

/// The signature and encoding of the face box of an image.
pub fn encode_face_crop(img: &RgbPixels, b: FaceBox) -> (res: (String, String))
    requires
        img.wf(),
    ensures
        res.0@ == face_signature(img.width, img.height, img.data@, b),
        res.1@ == face_encoding(res.0@),
        res.0@.len() == 256,
        is_bit_text(res.0@),
        is_encoding_text(res.1@),
{
    let crop = crop_rgb(img, b);
    let gray = grayscale_rgb(&crop);
    let thumb = resize_gray_triangle(&gray, 16, 16);
    let bits = thumbnail_signature(&thumb);
    let encoding = signature_encoding(bits.as_str());
    (bits, encoding)
}

/// The signature and encoding of the face box of a 16-bit image: the crop,
/// luma and resize are done at 16 bits, and the thumbnail narrowed to 8 bits.
pub fn encode_face_crop16(img: &Rgb16Pixels, b: FaceBox) -> (res: (String, String))
    requires
        img.wf(),
    ensures
        res.0@ == face_signature16(img.width, img.height, img.data@, b),
        res.1@ == face_encoding(res.0@),
        res.0@.len() == 256,
        is_bit_text(res.0@),
        is_encoding_text(res.1@),
{
    let crop = crop_rgb16(img, b);
    let gray = grayscale_rgb16(&crop);
    let wide = resize_gray16_triangle(&gray, 16, 16);
    let thumb = narrow_luma16(&wide);
    let bits = thumbnail_signature(&thumb);
    let encoding = signature_encoding(bits.as_str());
    (bits, encoding)
}

// ---------------------------------------------------------------------------
// Scans
// ---------------------------------------------------------------------------

/// The result of scanning one image.
#[derive(Clone, Debug)]
pub struct FaceScan {
    pub image_path: String,
    pub image_sha256: String,
    pub detector: String,
    pub bbox: FaceBox,
    /// The detector's confidence, as the bit pattern of an `f32`.
    pub confidence_bits: u32,
    pub encoding: String,
    /// The 256 thumbnail bits behind `encoding`, as `'0'` and `'1'`.
    pub signature: String,
}

/// The content of a [`FaceScan`].
pub struct FaceScanView {
    pub image_path: Seq<char>,
    pub image_sha256: Seq<char>,
    pub detector: Seq<char>,
    pub bbox: FaceBox,
    pub confidence_bits: u32,
    pub encoding: Seq<char>,
    pub signature: Seq<char>,
}

impl View for FaceScan {
    type V = FaceScanView;

    open spec fn view(&self) -> FaceScanView {
        FaceScanView {
            image_path: self.image_path@,
            image_sha256: self.image_sha256@,
            detector: self.detector@,
            bbox: self.bbox,
            confidence_bits: self.confidence_bits,
            encoding: self.encoding@,
            signature: self.signature@,
        }
    }
}

impl FaceScan {
    /// A copy of the scan.
    pub fn duplicate(&self) -> (res: FaceScan)
        ensures
            res@ == self@,
    {
        FaceScan {
            image_path: self.image_path.clone(),
            image_sha256: self.image_sha256.clone(),
            detector: self.detector.clone(),
            bbox: self.bbox,
            confidence_bits: self.confidence_bits,
            encoding: self.encoding.clone(),
            signature: self.signature.clone(),
        }
    }
}

/// The bit pattern of the `f32` 0.64, the confidence every scan reports.
pub const SCAN_CONFIDENCE_BITS: u32 = 0x3F23_D70A;

/// The scan of the image `bytes` read from `image_path`.
pub open spec fn scan_of(image_path: Seq<char>, bytes: Seq<u8>) -> Result<FaceScanView, FaceScanError> {
    match decoded_rgb8(bytes) {
        None => Err(FaceScanError::Decode),
        Some((w, h, d)) => match detect_face(w, h, d) {
            Err(e) => Err(e),
            Ok(b) => Ok(
                FaceScanView {
                    image_path,
                    image_sha256: sha256_hex_text(bytes),
                    detector: "local-rust-skin-tone-candidate-v1"@,
                    bbox: b,
                    confidence_bits: SCAN_CONFIDENCE_BITS,
                    encoding: face_encoding(scan_signature(bytes, w, h, d, b)),
                    signature: scan_signature(bytes, w, h, d, b),
                },
            ),
        },
    }
}

/// Scans the image `bytes` (read from `image_path`): decodes it, finds the
/// face box and fingerprints it.
pub fn scan_face_bytes(image_path: String, bytes: &[u8]) -> (res: Result<FaceScan, FaceScanError>)
    ensures
        match (res, scan_of(image_path@, bytes@)) {
            (Ok(s), Ok(v)) => s@ == v,
            (Err(e), Err(f)) => e == f,
            _ => false,
        },
        res matches Ok(s) ==> s.signature@.len() == 256 && is_bit_text(s.signature@) && is_encoding_text(s.encoding@),
{
    let image_sha256 = sha256_hex(bytes);
    let img = match decode_rgb8(bytes) {
        Some(img) => img,
        None => return Err(FaceScanError::Decode),
    };
    let bbox = match detect_skin_tone_face_candidate(&img) {
        Ok(b) => b,
        Err(e) => return Err(e),
    };
    let (signature, encoding) = match decode_rgb16(bytes) {
        Some(wide) => encode_face_crop16(&wide, bbox),
        None => encode_face_crop(&img, bbox),
    };
    Ok(FaceScan {
        image_path,
        image_sha256,
        detector: String::from_str("local-rust-skin-tone-candidate-v1"),
        bbox,
        confidence_bits: SCAN_CONFIDENCE_BITS,
        encoding,
        signature,
    })
}

/// Positions where two signatures agree, among the positions both have.
pub open spec fn agreeing_positions(a: Seq<char>, b: Seq<char>, n: nat) -> nat
    decreases n,
{
    if n == 0 {
        0
    } else {
        agreeing_positions(a, b, (n - 1) as nat) + if a[n - 1] == b[n - 1] { 1nat } else { 0nat }
    }
}

/// How far two scans' signatures agree: `(agreeing positions, compared positions)`,
/// comparing the positions both signatures have.
pub fn signature_agreement(a: &FaceScan, b: &FaceScan) -> (res: (u64, u64))
    ensures
        res.1 == min_int(a.signature@.len() as int, b.signature@.len() as int),
        res.0 == agreeing_positions(a.signature@, b.signature@, res.1 as nat),
{
    let sa = crate::text::chars_of(a.signature.as_str());
    let sb = crate::text::chars_of(b.signature.as_str());
    let n = if sa.len() <= sb.len() {
        sa.len()
    } else {
        sb.len()
    };
    let mut same: u64 = 0;
    let mut i: usize = 0;
    while i < n
        invariant
            n <= sa@.len(),
            n <= sb@.len(),
            sa@ == a.signature@,
            sb@ == b.signature@,
            i <= n,
            same <= i,
            same == agreeing_positions(sa@, sb@, i as nat),
        decreases n - i,
    {
        if sa[i] == sb[i] {
            same = same + 1;
        }
        i = i + 1;
    }
    (same, n as u64)
}

// ---------------------------------------------------------------------------
// Laws
// ---------------------------------------------------------------------------

/// Pixel `(px, py)` comes before position `(x, y)` in row-by-row order.
pub open spec fn visited_before(y: nat, x: nat, py: int, px: int) -> bool {
    py < y || (py == y && px < x)
}

/// What the statistics say after any prefix of the scan: with no hit the
/// extent is still the empty one; otherwise it lies within the image and
/// spans every skin-tone pixel seen.
proof fn lemma_stats_extent(w: u32, h: u32, data: Seq<u8>, y: nat, x: nat)
    requires
        y <= h,
        x <= w,
        y == h ==> x == 0,
        data.len() == 3 * (w as int) * (h as int),
    ensures
        ({
            let s = stats_at(w, h, data, y, x);
            &&& s.hits == 0 ==> s.min_x == w && s.min_y == h && s.max_x == 0 && s.max_y == 0
            &&& s.hits > 0 ==> s.min_x <= s.max_x < w && s.min_y <= s.max_y < h
            &&& forall|py: int, px: int|
                0 <= py < h && 0 <= px < w && visited_before(y, x, py, px) && #[trigger] face_pixel(w, h, data, px as u32, py as u32)
                    ==> s.min_x <= px <= s.max_x && s.min_y <= py <= s.max_y
        }),
    decreases y, x,
{
    if x == 0 {
        if y > 0 {
            lemma_stats_extent(w, h, data, (y - 1) as nat, w as nat);
            let s = stats_at(w, h, data, y, x);
            assert(s == stats_at(w, h, data, (y - 1) as nat, w as nat));
            assert forall|py: int, px: int|
                0 <= py < h && 0 <= px < w && visited_before(y, x, py, px) && #[trigger] face_pixel(w, h, data, px as u32, py as u32)
                    implies s.min_x <= px <= s.max_x && s.min_y <= py <= s.max_y by {
                assert(visited_before((y - 1) as nat, w as nat, py, px));
            }
        }
    } else {
        lemma_stats_extent(w, h, data, y, (x - 1) as nat);
        let prev = stats_at(w, h, data, y, (x - 1) as nat);
        let s = stats_at(w, h, data, y, x);
        assert(s == stats_step(prev, w, h, data, (x - 1) as u32, y as u32));
        assert forall|py: int, px: int|
            0 <= py < h && 0 <= px < w && visited_before(y, x, py, px) && #[trigger] face_pixel(w, h, data, px as u32, py as u32)
                implies s.min_x <= px <= s.max_x && s.min_y <= py <= s.max_y by {
            if py == y && px == x - 1 {
            } else {
                assert(visited_before(y, (x - 1) as nat, py, px));
            }
        }
    }
}

/// The face box lies inside the image and is at least one pixel wide and high,
/// and every skin-tone pixel of the portrait region lies within it (its far
/// edges included).
pub proof fn law_face_box_covers_skin(w: u32, h: u32, data: Seq<u8>)
    requires
        data.len() == 3 * (w as int) * (h as int),
        detect_face(w, h, data) is Ok,
    ensures
        ({
            let b = detect_face(w, h, data)->Ok_0;
            &&& 1 <= b.width && 1 <= b.height
            &&& b.x + b.width <= w && b.y + b.height <= h
            &&& forall|py: int, px: int|
                0 <= py < h && 0 <= px < w && #[trigger] face_pixel(w, h, data, px as u32, py as u32) ==> b.x <= px
                    <= b.x + b.width && b.y <= py <= b.y + b.height
        }),
{
    lemma_stats_extent(w, h, data, h as nat, 0);
    let s = stats_at(w, h, data, h as nat, 0);
    assert(s.hits >= 40);
    assert forall|py: int, px: int|
        0 <= py < h && 0 <= px < w && #[trigger] face_pixel(w, h, data, px as u32, py as u32) implies visited_before(
        h as nat,
        0,
        py,
        px,
    ) by {}
}

/// The number of skin-tone pixels of the portrait region among the first `x`
/// pixels of row `y`.
pub open spec fn skin_pixels_in_row(w: u32, h: u32, data: Seq<u8>, y: nat, x: nat) -> nat
    decreases x,
{
    if x == 0 {
        0
    } else {
        let px = (x - 1) as int;
        let i = 3 * (w as int) * (y as int) + 3 * px;
        skin_pixels_in_row(w, h, data, y, (x - 1) as nat) + if skin_tone(data[i], data[i + 1], data[i + 2])
            && portrait_region(px as u32, y as u32, w, h) {
            1nat
        } else {
            0nat
        }
    }
}

/// The number of skin-tone pixels of the portrait region in the first `y` rows.
pub open spec fn skin_pixels_in_rows(w: u32, h: u32, data: Seq<u8>, y: nat) -> nat
    decreases y,
{
    if y == 0 {
        0
    } else {
        skin_pixels_in_rows(w, h, data, (y - 1) as nat) + skin_pixels_in_row(w, h, data, (y - 1) as nat, w as nat)
    }
}

proof fn lemma_hits_count_skin_pixels(w: u32, h: u32, data: Seq<u8>, y: nat, x: nat)
    requires
        x <= w,
        y <= h,
    ensures
        stats_at(w, h, data, y, x).hits == skin_pixels_in_rows(w, h, data, y) + skin_pixels_in_row(w, h, data, y, x),
    decreases y, x,
{
    if x == 0 {
        if y > 0 {
            lemma_hits_count_skin_pixels(w, h, data, (y - 1) as nat, w as nat);
        }
    } else {
        lemma_hits_count_skin_pixels(w, h, data, y, (x - 1) as nat);
        let px = (x - 1) as int;
        assert(((x - 1) as u32) as int == px);
        assert((y as u32) as int == y);
        assert(row_base(w as int, y as int) == 3 * (w as int) * (y as int));
    }
}

/// A face is found exactly when there are enough skin-tone pixels in the
/// portrait region: at least one in 300 of the image's pixels, and at least
/// 40. Images narrower or lower than 32 pixels are too small.
pub proof fn law_face_found_with_one_skin_pixel_in_300(w: u32, h: u32, data: Seq<u8>)
    ensures
        (w < 32 || h < 32) ==> detect_face(w, h, data) == Err::<FaceBox, FaceScanError>(FaceScanError::TooSmall),
        (w >= 32 && h >= 32) ==> {
            let n = skin_pixels_in_rows(w, h, data, h as nat);
            &&& (n >= (w as int) * (h as int) / 300 && n >= 40) ==> detect_face(w, h, data) is Ok
            &&& (n < (w as int) * (h as int) / 300 || n < 40) ==> detect_face(w, h, data) == Err::<
                FaceBox,
                FaceScanError,
            >(FaceScanError::NoFace)
        },
{
    lemma_hits_count_skin_pixels(w, h, data, h as nat, 0);
}

/// A scan's signature agrees with itself everywhere.
pub proof fn law_signature_agrees_with_itself(sig: Seq<char>, n: nat)
    requires
        n <= sig.len(),
    ensures
        agreeing_positions(sig, sig, n) == n,
    decreases n,
{
    if n > 0 {
        law_signature_agrees_with_itself(sig, (n - 1) as nat);
    }
}

/// A successful scan reports the fixed detector name and confidence, an
/// encoding that starts with `phash256:`, and a signature of `'0'` and `'1'`.
pub proof fn law_scan_shape(image_path: Seq<char>, bytes: Seq<u8>)
    requires
        scan_of(image_path, bytes) is Ok,
    ensures
        ({
            let v = scan_of(image_path, bytes)->Ok_0;
            &&& v.detector == "local-rust-skin-tone-candidate-v1"@
            &&& v.confidence_bits == SCAN_CONFIDENCE_BITS
            &&& v.encoding.take(9) == "phash256:"@
            &&& forall|i: int| 0 <= i < v.signature.len() ==> (#[trigger] v.signature[i] == '0' || v.signature[i] == '1')
        }),
{
    let v = scan_of(image_path, bytes)->Ok_0;
    reveal_strlit("phash256:");
    assert(v.encoding.take(9) == "phash256:"@);
}

} // verus!
