use render_front::texture::{
    DepthTexture, Extent3d, ImageDataLayout, Texture, TextureError, TextureFormat,
};

fn png(width: u32, height: u32, pixels: Vec<u8>) -> Vec<u8> {
    let image = image::RgbaImage::from_raw(width, height, pixels).unwrap();
    let mut file = Vec::new();
    image::DynamicImage::ImageRgba8(image)
        .write_to(&mut std::io::Cursor::new(&mut file), image::ImageOutputFormat::Png)
        .unwrap();
    file
}

fn gray_png(width: u32, height: u32, pixels: Vec<u8>) -> Vec<u8> {
    let image = image::GrayImage::from_raw(width, height, pixels).unwrap();
    let mut file = Vec::new();
    image::DynamicImage::ImageLuma8(image)
        .write_to(&mut std::io::Cursor::new(&mut file), image::ImageOutputFormat::Png)
        .unwrap();
    file
}

#[test]
fn valid_pixels_make_a_texture() {
    let pixels: Vec<u8> = (0..24).collect();
    let texture = Texture::from_pixels(pixels.clone(), 3, 2).unwrap();
    assert_eq!(texture.width(), 3);
    assert_eq!(texture.height(), 2);
    assert_eq!(texture.pixels(), pixels.as_slice());
    assert_eq!(texture.format(), TextureFormat::Rgba8UnormSrgb);
}

#[test]
fn pixels_of_the_wrong_length_are_refused() {
    assert_eq!(Texture::from_pixels(vec![0; 23], 3, 2).err(), Some(TextureError::DecodeFailed));
    assert_eq!(Texture::from_pixels(vec![0; 25], 3, 2).err(), Some(TextureError::DecodeFailed));
    assert_eq!(Texture::from_pixels(vec![0; 6], 3, 2).err(), Some(TextureError::DecodeFailed));
}

#[test]
fn empty_images_are_refused() {
    assert_eq!(Texture::from_pixels(Vec::new(), 0, 0).err(), Some(TextureError::DecodeFailed));
    assert_eq!(Texture::from_pixels(Vec::new(), 0, 5).err(), Some(TextureError::DecodeFailed));
    assert_eq!(Texture::from_pixels(Vec::new(), 5, 0).err(), Some(TextureError::DecodeFailed));
}

#[test]
fn rows_too_long_for_32_bits_are_refused() {
    assert_eq!(
        Texture::from_pixels(Vec::new(), 0x4000_0000, 1).err(),
        Some(TextureError::DecodeFailed)
    );
    assert_eq!(
        Texture::from_pixels(Vec::new(), u32::MAX, u32::MAX).err(),
        Some(TextureError::DecodeFailed)
    );
}

#[test]
fn upload_layout_is_four_bytes_a_texel() {
    let texture = Texture::from_pixels(vec![7; 4 * 5 * 3], 5, 3).unwrap();
    assert_eq!(
        texture.data_layout(),
        ImageDataLayout { offset: 0, bytes_per_row: 20, rows_per_image: 3 }
    );
    assert_eq!(texture.extent(), Extent3d { width: 5, height: 3, depth_or_array_layers: 1 });
    let layout = texture.data_layout();
    assert_eq!(
        layout.bytes_per_row as usize * layout.rows_per_image as usize,
        texture.pixels().len()
    );
}

#[test]
fn png_decodes_to_its_pixels() {
    let pixels: Vec<u8> = (0..32).map(|n| n * 7).collect();
    let texture = Texture::new(&png(4, 2, pixels.clone())).unwrap();
    assert_eq!(texture.width(), 4);
    assert_eq!(texture.height(), 2);
    assert_eq!(texture.pixels(), pixels.as_slice());
}

#[test]
fn gray_image_is_widened_to_rgba() {
    let texture = Texture::new(&gray_png(2, 1, vec![10, 200])).unwrap();
    assert_eq!(texture.width(), 2);
    assert_eq!(texture.height(), 1);
    assert_eq!(texture.pixels(), &[10, 10, 10, 255, 200, 200, 200, 255]);
}

#[test]
fn jpeg_decodes_to_four_bytes_a_pixel() {
    let image = image::RgbImage::from_raw(8, 4, vec![128; 8 * 4 * 3]).unwrap();
    let mut file = Vec::new();
    image::DynamicImage::ImageRgb8(image)
        .write_to(&mut std::io::Cursor::new(&mut file), image::ImageOutputFormat::Jpeg(90))
        .unwrap();
    let texture = Texture::new(&file).unwrap();
    assert_eq!(texture.width(), 8);
    assert_eq!(texture.height(), 4);
    assert_eq!(texture.pixels().len(), 8 * 4 * 4);
    for pixel in texture.pixels().chunks(4) {
        assert_eq!(pixel[3], 255);
    }
}

#[test]
fn corrupt_bytes_are_no_texture() {
    let result = Texture::new(&[0xde, 0xad, 0xbe, 0xef, 1, 2, 3, 4, 5, 6, 7, 8, 9]);
    assert_eq!(result.err(), Some(TextureError::DecodeFailed));
}

#[test]
fn empty_file_is_no_texture() {
    assert_eq!(Texture::new(&[]).err(), Some(TextureError::DecodeFailed));
}

#[test]
fn truncated_png_is_no_texture() {
    let file = png(4, 4, vec![9; 64]);
    let result = Texture::new(&file[..file.len() / 2]);
    assert_eq!(result.err(), Some(TextureError::DecodeFailed));
}

#[test]
fn depth_texture_has_the_size_it_was_made_for() {
    let depth = DepthTexture::new(800, 600);
    assert_eq!(depth.width, 800);
    assert_eq!(depth.height, 600);
    assert_eq!(depth.extent(), Extent3d { width: 800, height: 600, depth_or_array_layers: 1 });
    assert_eq!(DepthTexture::depth_format(), TextureFormat::Depth32Float);
}
