use gta_assistant::decode::load_image;
use gta_assistant::geometry::ConfigError;
use std::io::Cursor;

fn png_bytes(width: u32, height: u32) -> Vec<u8> {
    let img = image::RgbImage::from_fn(width, height, |x, y| image::Rgb([x as u8, y as u8, 7]));
    let mut out = Cursor::new(Vec::new());
    img.write_to(&mut out, image::ImageFormat::Png).unwrap();
    out.into_inner()
}

#[test]
fn png_template_decodes_to_rgb() {
    let bytes = png_bytes(3, 2);
    let img = load_image(&bytes).unwrap();
    assert_eq!((img.width, img.height), (3, 2));
    assert_eq!(img.pixels.len(), 18);
    assert_eq!(&img.pixels[0..3], &[0, 0, 7]);
    assert_eq!(&img.pixels[15..18], &[2, 1, 7]);
    assert_ne!(img.pixels, bytes);
}

#[test]
fn garbage_is_undecodable() {
    assert_eq!(load_image(&vec![1, 2, 3, 4]).err(), Some(ConfigError::UndecodableImage));
    assert_eq!(load_image(&vec![]).err(), Some(ConfigError::UndecodableImage));
}
