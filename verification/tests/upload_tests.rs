use hhgoa_face_chain::upload::compress_for_upload;

fn png(img: &image::RgbImage) -> Vec<u8> {
    let mut out = std::io::Cursor::new(Vec::new());
    img.write_to(&mut out, image::ImageFormat::Png).expect("encode png");
    out.into_inner()
}

#[test]
fn compressed_image_is_a_jpeg_at_quality_85_when_it_fits() {
    let img = image::RgbImage::from_pixel(64, 48, image::Rgb([190, 128, 92]));
    let out = compress_for_upload(&png(&img)).expect("compressed");
    let mut expected = Vec::new();
    image::codecs::jpeg::JpegEncoder::new_with_quality(&mut expected, 85)
        .encode(img.as_raw(), 64, 48, image::ExtendedColorType::Rgb8)
        .expect("encode");
    assert_eq!(out, expected);
    let back = image::load_from_memory(&out).expect("decode").to_rgb8();
    assert_eq!(back.dimensions(), (64, 48));
}

#[test]
fn undecodable_bytes_are_not_compressed() {
    assert!(compress_for_upload(b"not an image").is_none());
}
