use std::io::Cursor;

use engine::texture_decoding::decode_embedded_texture;

fn png_bytes(width: u32, height: u32, rgba: Vec<u8>) -> Vec<u8> {
    let image = image::RgbaImage::from_raw(width, height, rgba).unwrap();
    let mut out = Cursor::new(Vec::new());
    image.write_to(&mut out, image::ImageFormat::Png).unwrap();
    out.into_inner()
}

#[test]
fn embedded_png_decodes_to_its_texels() {
    let texels = vec![255, 0, 0, 255, 0, 255, 0, 128];
    let encoded = png_bytes(2, 1, texels.clone());
    assert_ne!(encoded, texels);
    let decoded = decode_embedded_texture(&encoded).unwrap();
    assert_eq!((decoded.width, decoded.height), (2, 1));
    assert_eq!(decoded.rgba, texels);
}

#[test]
fn grey_png_is_widened_to_rgba() {
    let image = image::GrayImage::from_raw(1, 2, vec![10, 200]).unwrap();
    let mut out = Cursor::new(Vec::new());
    image.write_to(&mut out, image::ImageFormat::Png).unwrap();
    let decoded = decode_embedded_texture(&out.into_inner()).unwrap();
    assert_eq!((decoded.width, decoded.height), (1, 2));
    assert_eq!(decoded.rgba, vec![10, 10, 10, 255, 200, 200, 200, 255]);
}

#[test]
fn bytes_that_are_no_image_decode_to_nothing() {
    assert!(decode_embedded_texture(&[1, 2, 3, 4, 5]).is_none());
    assert!(decode_embedded_texture(&[]).is_none());
}
