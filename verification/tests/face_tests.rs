use image::GenericImageView;
use sha2::{Digest, Sha256};
use hhgoa_face_chain::face::{
    detect_skin_tone_face_candidate, encode_face_crop, encode_face_crop16, is_in_portrait_region, is_skin_tone, scan_face_bytes,
    signature_agreement, signature_encoding, thumbnail_signature, FaceBox, FaceScanError, GrayPixels, Rgb16Pixels, RgbPixels,
    SCAN_CONFIDENCE_BITS,
};

fn png_bytes(image: &image::RgbImage) -> Vec<u8> {
    let mut out = std::io::Cursor::new(Vec::new());
    image.write_to(&mut out, image::ImageFormat::Png).expect("encode png");
    out.into_inner()
}

fn synthetic_portrait() -> image::RgbImage {
    let mut image = image::RgbImage::from_pixel(160, 160, image::Rgb([28, 34, 44]));
    for x in 50..110 {
        for y in 35..115 {
            image.put_pixel(x, y, image::Rgb([190, 128, 92]));
        }
    }
    image
}

#[test]
fn scans_synthetic_portrait() {
    let bytes = png_bytes(&synthetic_portrait());
    let scan = match scan_face_bytes("hhgoa-face-chain-synthetic.png".to_string(), &bytes) {
        Ok(s) => s,
        Err(_) => panic!("scan face"),
    };
    assert!(scan.bbox.width > 40);
    assert!(scan.bbox.height > 60);
    assert!(scan.encoding.starts_with("phash256:"));
}

#[test]
fn synthetic_portrait_box_is_padded_skin_extent() {
    let image = synthetic_portrait();
    let pixels = RgbPixels { width: 160, height: 160, data: image.into_raw() };
    let b = detect_skin_tone_face_candidate(&pixels).unwrap_or(FaceBox { x: 0, y: 0, width: 0, height: 0 });
    assert_eq!(b, FaceBox { x: 31, y: 0, width: 97, height: 157 });
}

#[test]
fn scan_reports_fingerprints() {
    let bytes = png_bytes(&synthetic_portrait());
    let scan = match scan_face_bytes("p.png".to_string(), &bytes) {
        Ok(s) => s,
        Err(_) => panic!("scan face"),
    };
    assert_eq!(scan.image_sha256, hex::encode(Sha256::digest(&bytes)));
    assert_eq!(scan.signature.len(), 256);
    assert!(scan.signature.chars().all(|c| c == '0' || c == '1'));
    assert_eq!(scan.encoding, format!("phash256:{}", hex::encode(Sha256::digest(scan.signature.as_bytes()))));
    assert_eq!(scan.detector, "local-rust-skin-tone-candidate-v1");
    assert_eq!(f32::from_bits(scan.confidence_bits), 0.64f32);
    assert_eq!(scan.confidence_bits, SCAN_CONFIDENCE_BITS);
    assert_eq!(scan.image_path, "p.png");
    assert_eq!(signature_agreement(&scan, &scan), (256, 256));
}

#[test]
fn small_image_is_too_small() {
    let bytes = png_bytes(&image::RgbImage::from_pixel(31, 64, image::Rgb([190, 128, 92])));
    assert!(matches!(scan_face_bytes("s.png".to_string(), &bytes), Err(FaceScanError::TooSmall)));
}

#[test]
fn image_without_skin_has_no_face() {
    let bytes = png_bytes(&image::RgbImage::from_pixel(64, 64, image::Rgb([28, 34, 44])));
    assert!(matches!(scan_face_bytes("d.png".to_string(), &bytes), Err(FaceScanError::NoFace)));
}

#[test]
fn garbage_does_not_decode() {
    assert!(matches!(scan_face_bytes("g".to_string(), b"not an image"), Err(FaceScanError::Decode)));
}

#[test]
fn skin_tone_rule() {
    assert!(is_skin_tone(190, 128, 92));
    assert!(!is_skin_tone(28, 34, 44));
    assert!(!is_skin_tone(96, 90, 80));
    assert!(!is_skin_tone(200, 190, 21));
    assert!(is_skin_tone(200, 180, 21));
}

#[test]
fn portrait_region_bounds() {
    assert!(is_in_portrait_region(16, 8, 160, 160));
    assert!(!is_in_portrait_region(15, 8, 160, 160));
    assert!(is_in_portrait_region(144, 152, 160, 160));
    assert!(!is_in_portrait_region(145, 100, 160, 160));
    assert!(!is_in_portrait_region(100, 153, 160, 160));
}

/// The fingerprint computed on the decoded image in its own pixel type.
fn fingerprint_in_own_pixel_type(bytes: &[u8], b: FaceBox) -> String {
    let image = image::load_from_memory(bytes).expect("decode");
    let crop = image.crop_imm(b.x, b.y, b.width, b.height);
    let gray = crop.grayscale().resize_exact(16, 16, image::imageops::FilterType::Triangle);
    let luma = gray.to_luma8();
    let avg = luma.pixels().map(|p| p.0[0] as u32).sum::<u32>() / 256;
    let bits: String = luma.pixels().map(|p| if p.0[0] as u32 >= avg { '1' } else { '0' }).collect();
    assert_eq!(gray.dimensions(), (16, 16));
    format!("phash256:{}", hex::encode(Sha256::digest(bits.as_bytes())))
}

fn shaded_portrait() -> image::RgbImage {
    let mut image = synthetic_portrait();
    for x in 50..110u32 {
        for y in 35..115u32 {
            let shade = ((x * 7 + y * 3) % 40) as u8;
            image.put_pixel(x, y, image::Rgb([170 + shade, 110 + shade / 2, 80 + shade / 3]));
        }
    }
    image
}

#[test]
fn eight_bit_formats_fingerprint_as_in_their_own_pixel_type() {
    let rgb = shaded_portrait();
    let rgba = image::DynamicImage::ImageRgb8(rgb.clone()).to_rgba8();
    let mut rgba = rgba;
    for (i, p) in rgba.pixels_mut().enumerate() {
        p.0[3] = (i % 251) as u8;
    }
    let luma = image::DynamicImage::ImageRgb8(rgb.clone()).to_luma8();
    let encodings: Vec<Vec<u8>> = vec![
        png_bytes(&rgb),
        {
            let mut out = std::io::Cursor::new(Vec::new());
            rgba.write_to(&mut out, image::ImageFormat::Png).expect("encode png");
            out.into_inner()
        },
        {
            let mut out = std::io::Cursor::new(Vec::new());
            luma.write_to(&mut out, image::ImageFormat::Png).expect("encode png");
            out.into_inner()
        },
    ];
    for bytes in encodings {
        if let Ok(scan) = scan_face_bytes("p.png".to_string(), &bytes) {
            assert_eq!(scan.encoding, fingerprint_in_own_pixel_type(&bytes, scan.bbox));
        } else {
            let pixels = image::load_from_memory(&bytes).expect("decode").to_rgb8();
            let (w, h) = pixels.dimensions();
            let img = RgbPixels { width: w, height: h, data: pixels.into_raw() };
            let b = FaceBox { x: 40, y: 30, width: 80, height: 90 };
            assert_eq!(encode_face_crop(&img, b).1, fingerprint_in_own_pixel_type(&bytes, b));
        }
    }
}

#[test]
fn thumbnail_bits_compare_with_the_mean() {
    let data: Vec<u8> = (0..256u32).map(|i| i as u8).collect();
    let thumb = GrayPixels { width: 16, height: 16, data };
    let bits = thumbnail_signature(&thumb);
    // The mean of 0..=255 is 127 (rounded down): bytes 127 and up give '1'.
    assert_eq!(bits, format!("{}{}", "0".repeat(127), "1".repeat(129)));
    let flat = GrayPixels { width: 16, height: 16, data: vec![9; 256] };
    assert_eq!(thumbnail_signature(&flat), "1".repeat(256));
}

#[test]
fn signature_encoding_hashes_the_bits() {
    let e = signature_encoding("1010");
    assert_eq!(e, format!("phash256:{}", hex::encode(Sha256::digest(b"1010"))));
    assert_eq!(e.len(), 73);
}

#[test]
fn crop_fingerprint_uses_image_luma() {
    // One grey level per 2x2 block of a 32x32 image: the fingerprint of the
    // whole image is the fingerprint of its luma computed by the image crate.
    let mut rgb = image::RgbImage::new(32, 32);
    for (x, y, p) in rgb.enumerate_pixels_mut() {
        let v = ((x / 2) * 16 + (y / 2)) as u8;
        *p = image::Rgb([v, v.wrapping_mul(3), 255 - v]);
    }
    let bytes = png_bytes(&rgb);
    let img = RgbPixels { width: 32, height: 32, data: rgb.into_raw() };
    let b = FaceBox { x: 0, y: 0, width: 32, height: 32 };
    assert_eq!(encode_face_crop(&img, b).1, fingerprint_in_own_pixel_type(&bytes, b));
}

fn encoded_png(image: &image::DynamicImage) -> Vec<u8> {
    let mut out = std::io::Cursor::new(Vec::new());
    image.write_to(&mut out, image::ImageFormat::Png).expect("encode png");
    out.into_inner()
}

#[test]
fn sixteen_bit_formats_fingerprint_at_sixteen_bits() {
    let mut wide = image::DynamicImage::ImageRgb8(shaded_portrait()).to_rgb16();
    for (i, s) in wide.iter_mut().enumerate() {
        *s = s.saturating_add(((i * 37) % 250) as u16);
    }
    let mut with_alpha = image::DynamicImage::ImageRgb16(wide.clone()).to_rgba16();
    for (i, p) in with_alpha.pixels_mut().enumerate() {
        p.0[3] = ((i * 263) % 65536) as u16;
    }
    let gray = image::DynamicImage::ImageRgb16(wide.clone()).to_luma16();
    let images = vec![
        image::DynamicImage::ImageRgb16(wide),
        image::DynamicImage::ImageRgba16(with_alpha),
        image::DynamicImage::ImageLuma16(gray),
    ];
    for img in images {
        let bytes = encoded_png(&img);
        if let Ok(scan) = scan_face_bytes("p16.png".to_string(), &bytes) {
            assert_eq!(scan.encoding, fingerprint_in_own_pixel_type(&bytes, scan.bbox));
            assert_eq!(scan.encoding, format!("phash256:{}", hex::encode(Sha256::digest(scan.signature.as_bytes()))));
        } else {
            // A gray image has no skin tone; fingerprint a fixed box instead.
            let wide = image::load_from_memory(&bytes).expect("decode").to_rgb16();
            let (w, h) = wide.dimensions();
            let img = Rgb16Pixels { width: w, height: h, data: wide.into_raw() };
            let b = FaceBox { x: 40, y: 30, width: 80, height: 90 };
            assert_eq!(encode_face_crop16(&img, b).1, fingerprint_in_own_pixel_type(&bytes, b));
        }
    }
    assert!(matches!(scan_face_bytes("p16.png".to_string(), &encoded_png(&image::DynamicImage::ImageRgb16(
        image::DynamicImage::ImageRgb8(shaded_portrait()).to_rgb16()))), Ok(_)));
}
