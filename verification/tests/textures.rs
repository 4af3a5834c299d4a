use wgpu_renderer::texture::{pixels_from, texture_pixels, TextureBuilder};

const CHECKER: [u8; 16] = [255, 0, 255, 255, 255, 255, 255, 255, 255, 255, 255, 255, 255, 0, 255, 255];

fn png_bytes(width: u32, height: u32, rgba: Vec<u8>) -> Vec<u8> {
    let img = image::RgbaImage::from_raw(width, height, rgba).unwrap();
    let mut out = std::io::Cursor::new(Vec::new());
    img.write_to(&mut out, image::ImageFormat::Png).unwrap();
    out.into_inner()
}

#[test]
fn texture_pixels_decode_the_image_file_first() {
    let pixels = vec![1, 2, 3, 4, 5, 6, 7, 8];
    let builder = TextureBuilder::new().with_img_file("two.png").with_data(1, 1, vec![9, 9, 9, 9]);
    let file = png_bytes(2, 1, pixels.clone());
    assert_eq!(texture_pixels(&builder, Some(file)), (2, 1, pixels));
}

#[test]
fn texture_pixels_fall_back_to_data_then_checkerboard() {
    let with_data = TextureBuilder::new().with_data(1, 1, vec![9, 8, 7, 6]);
    // bytes that are no image, and no file at all
    assert_eq!(texture_pixels(&with_data, Some(vec![0, 1, 2, 3])), (1, 1, vec![9, 8, 7, 6]));
    assert_eq!(texture_pixels(&with_data, None), (1, 1, vec![9, 8, 7, 6]));
    let empty = TextureBuilder::new();
    assert_eq!(texture_pixels(&empty, None), (2, 2, CHECKER.to_vec()));
    assert_eq!(texture_pixels(&empty, Some(vec![7; 10])), (2, 2, CHECKER.to_vec()));
    assert_eq!(pixels_from(Some((1, 1, vec![0, 0, 0, 0])), &with_data), (1, 1, vec![0, 0, 0, 0]));
    assert_eq!(pixels_from(None, &empty), (2, 2, CHECKER.to_vec()));
}
