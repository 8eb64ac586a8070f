//! Bringing an image under the SerpAPI upload limit: the image is re-encoded
//! as JPEG at falling qualities, and then at halved sizes, until the file fits.

use vstd::prelude::*;

use crate::face::{decode_rgb8, decoded_rgb8, RgbPixels};
use crate::search::MAX_UPLOAD_BYTES;

verus! {

/// The JPEG file `image::codecs::jpeg::JpegEncoder::new_with_quality(.., quality)`
/// writes for a `w` by `h` RGB8 buffer, or `None` when the encoder refuses it.
pub uninterp spec fn jpeg_encoded(w: u32, h: u32, rgb: Seq<u8>, quality: u8) -> Option<Seq<u8>>;

/// The RGB8 bytes `image::imageops::resize` with `FilterType::Triangle` computes
/// when scaling a `w` by `h` RGB8 buffer to `nw` by `nh`.
pub uninterp spec fn resize_rgb_triangle(w: u32, h: u32, rgb: Seq<u8>, nw: u32, nh: u32) -> Seq<u8>;

/// Calls `JpegEncoder::new_with_quality(.., quality).encode(.., Rgb8)` of the
/// `image` crate into a byte vector; claims the bytes are `jpeg_encoded`, and
/// that it fails exactly when `jpeg_encoded` is `None`.
#[verifier::external_body]
fn encode_jpeg(img: &RgbPixels, quality: u8) -> (res: Option<Vec<u8>>)
    requires
        img.wf(),
    ensures
        res is None <==> jpeg_encoded(img.width, img.height, img.data@, quality) is None,
        res matches Some(j) ==> jpeg_encoded(img.width, img.height, img.data@, quality) == Some(j@),
{
    let mut out: Vec<u8> = Vec::new();
    let written = image::codecs::jpeg::JpegEncoder::new_with_quality(&mut out, quality).encode(
        &img.data,
        img.width,
        img.height,
        image::ExtendedColorType::Rgb8,
    );
    match written {
        Ok(()) => Some(out),
        Err(_) => None,
    }
}

/// Calls `image::imageops::resize` with `FilterType::Triangle` on an RGB8
/// buffer; claims the result is `nw` by `nh` with the bytes `resize_rgb_triangle` names.
#[verifier::external_body]
fn resize_rgb(img: &RgbPixels, nw: u32, nh: u32) -> (res: RgbPixels)
    requires
        img.wf(),
    ensures
        res.width == nw,
        res.height == nh,
        res.data@ == resize_rgb_triangle(img.width, img.height, img.data@, nw, nh),
        res.wf(),
{
    let buf = image::RgbImage::from_raw(img.width, img.height, img.data.clone()).unwrap();
    let out = image::imageops::resize(&buf, nw, nh, image::imageops::FilterType::Triangle);
    RgbPixels { width: out.width(), height: out.height(), data: out.into_raw() }
}

/// The JPEG qualities tried at each size, best first.
pub open spec fn quality_at(q: nat) -> u8 {
    if q == 0 {
        85
    } else if q == 1 {
        70
    } else if q == 2 {
        55
    } else {
        40
    }
}

/// Half a side, but never less than one pixel.
pub open spec fn half_side(x: u32) -> u32 {
    if x / 2 == 0 {
        1
    } else {
        x / 2
    }
}

/// A side halved `n` times.
pub open spec fn halved(x: u32, n: nat) -> u32
    decreases n,
{
    if n == 0 {
        x
    } else {
        half_side(halved(x, (n - 1) as nat))
    }
}

/// The first JPEG of the image, at qualities `q`, `q + 1`, … of `quality_at`,
/// that fits the upload limit.
pub open spec fn fit_from(w: u32, h: u32, rgb: Seq<u8>, q: nat) -> Option<Seq<u8>>
    decreases 4 - q,
{
    if q >= 4 {
        None
    } else {
        match jpeg_encoded(w, h, rgb, quality_at(q)) {
            Some(j) => if j.len() <= MAX_UPLOAD_BYTES {
                Some(j)
            } else {
                fit_from(w, h, rgb, q + 1)
            },
            None => fit_from(w, h, rgb, q + 1),
        }
    }
}

/// The first JPEG that fits, trying the image at its own size and then halved
/// `level`, `level + 1`, … times, up to seven times.
pub open spec fn fit_from_level(w: u32, h: u32, rgb: Seq<u8>, level: nat) -> Option<Seq<u8>>
    decreases 8 - level,
{
    if level >= 8 {
        None
    } else {
        let attempt = if level == 0 {
            fit_from(w, h, rgb, 0)
        } else {
            let (dw, dh) = (halved(w, level), halved(h, level));
            fit_from(dw, dh, resize_rgb_triangle(w, h, rgb, dw, dh), 0)
        };
        match attempt {
            Some(j) => Some(j),
            None => fit_from_level(w, h, rgb, level + 1),
        }
    }
}

/// The file uploaded in place of an image that is over the limit: the first
/// JPEG re-encoding that fits, or `None` when the bytes do not decode, the
/// image is empty, or no attempt fits.
pub open spec fn compressed_for_upload(bytes: Seq<u8>) -> Option<Seq<u8>> {
    match decoded_rgb8(bytes) {
        None => None,
        Some((w, h, d)) => if w == 0 || h == 0 {
            None
        } else {
            fit_from_level(w, h, d, 0)
        },
    }
}

/// The JPEG quality of attempt `q`.
fn quality_for(q: usize) -> (res: u8)
    ensures
        res == quality_at(q as nat),
{
    if q == 0 {
        85
    } else if q == 1 {
        70
    } else if q == 2 {
        55
    } else {
        40
    }
}

/// The first re-encoding of `img` at the four qualities that fits the limit.
fn fit_qualities(img: &RgbPixels) -> (res: Option<Vec<u8>>)
    requires
        img.wf(),
    ensures
        res is None <==> fit_from(img.width, img.height, img.data@, 0) is None,
        res matches Some(j) ==> fit_from(img.width, img.height, img.data@, 0) == Some(j@),
{
    let mut q: usize = 0;
    while q < 4
        invariant
            q <= 4,
            img.wf(),
            fit_from(img.width, img.height, img.data@, 0) == fit_from(img.width, img.height, img.data@, q as nat),
        decreases 4 - q,
    {
        let quality = quality_for(q);
        if let Some(j) = encode_jpeg(img, quality) {
            if (j.len() as u64) <= MAX_UPLOAD_BYTES {
                return Some(j);
            }
        }
        q = q + 1;
    }
    None
}

/// Half a side, never less than one pixel.
fn half_of(x: u32) -> (res: u32)
    ensures
        res == half_side(x),
{
    if x / 2 == 0 {
        1
    } else {
        x / 2
    }
}

/// Re-encodes the image `bytes` as a JPEG of at most 500 KB: at its own size
/// with qualities 85, 70, 55 and 40, then at halved sizes (down to 1/128) with
/// the same qualities, keeping the first file that fits.
pub fn compress_for_upload(bytes: &[u8]) -> (res: Option<Vec<u8>>)
    ensures
        res is None <==> compressed_for_upload(bytes@) is None,
        res matches Some(j) ==> compressed_for_upload(bytes@) == Some(j@),
        res matches Some(j) ==> j@.len() <= MAX_UPLOAD_BYTES,
{
    let img = match decode_rgb8(bytes) {
        Some(img) => img,
        None => return None,
    };
    if img.width == 0 || img.height == 0 {
        return None;
    }
    let ghost (w, h, d) = (img.width, img.height, img.data@);
    let first = fit_qualities(&img);
    if first.is_some() {
        proof {
            lemma_fit_is_small(w, h, d, 0);
        }
        return first;
    }
    let mut level: usize = 1;
    let mut dw = half_of(img.width);
    let mut dh = half_of(img.height);
    while level < 8
        invariant
            1 <= level <= 8,
            img.wf(),
            img.width == w,
            img.height == h,
            img.data@ == d,
            decoded_rgb8(bytes@) == Some((w, h, d)),
            w != 0 && h != 0,
            dw == halved(w, level as nat),
            dh == halved(h, level as nat),
            fit_from_level(w, h, d, 0) == fit_from_level(w, h, d, level as nat),
        decreases 8 - level,
    {
        let scaled = resize_rgb(&img, dw, dh);
        let found = fit_qualities(&scaled);
        proof {
            assert(scaled.data@ == resize_rgb_triangle(w, h, d, dw, dh));
            assert(fit_from_level(w, h, d, level as nat) == match fit_from(dw, dh, scaled.data@, 0) {
                Some(j) => Some(j),
                None => fit_from_level(w, h, d, level as nat + 1),
            });
        }
        if found.is_some() {
            proof {
                lemma_fit_is_small(dw, dh, scaled.data@, 0);
            }
            return found;
        }
        level = level + 1;
        dw = half_of(dw);
        dh = half_of(dh);
    }
    None
}

/// A compressed upload is never over the limit.
pub proof fn lemma_compressed_fits(bytes: Seq<u8>)
    ensures
        compressed_for_upload(bytes) matches Some(j) ==> j.len() <= MAX_UPLOAD_BYTES,
{
    if let Some((w, h, d)) = decoded_rgb8(bytes) {
        lemma_level_fit_is_small(w, h, d, 0);
    }
}

proof fn lemma_level_fit_is_small(w: u32, h: u32, rgb: Seq<u8>, level: nat)
    ensures
        fit_from_level(w, h, rgb, level) matches Some(j) ==> j.len() <= MAX_UPLOAD_BYTES,
    decreases 8 - level,
{
    if level < 8 {
        lemma_fit_is_small(w, h, rgb, 0);
        lemma_fit_is_small(halved(w, level), halved(h, level), resize_rgb_triangle(w, h, rgb, halved(w, level), halved(h, level)), 0);
        lemma_level_fit_is_small(w, h, rgb, level + 1);
    }
}

proof fn lemma_fit_is_small(w: u32, h: u32, rgb: Seq<u8>, q: nat)
    ensures
        fit_from(w, h, rgb, q) matches Some(j) ==> j.len() <= MAX_UPLOAD_BYTES,
    decreases 4 - q,
{
    if q < 4 {
        lemma_fit_is_small(w, h, rgb, q + 1);
    }
}

} // verus!
