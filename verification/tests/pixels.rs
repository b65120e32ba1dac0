use tile_scene::pixels::{rgba_pixels, PixelFormat};

// One block: alpha in the first eight bytes, four bits a pixel; then two
// colours in 5-6-5 bits and two bits a pixel to choose between them.
fn red_block(alpha: u8) -> Vec<u8> {
    let mut block = vec![alpha; 8];
    block.extend_from_slice(&[0x00, 0xF8, 0x00, 0x00, 0, 0, 0, 0]);
    block
}

#[test]
fn plain_data_is_taken_as_it_is() {
    let data: Vec<u8> = (0..24).collect();
    assert_eq!(rgba_pixels(PixelFormat::Plain, 3, 2, data.clone()), Some(data));
}

#[test]
fn plain_data_may_be_longer_than_the_image() {
    let data: Vec<u8> = (0..30).collect();
    assert_eq!(rgba_pixels(PixelFormat::Plain, 3, 2, data.clone()), Some(data));
}

#[test]
fn plain_data_too_short_is_refused() {
    assert_eq!(rgba_pixels(PixelFormat::Plain, 3, 2, vec![0; 23]), None);
    assert_eq!(rgba_pixels(PixelFormat::Plain, u32::MAX, u32::MAX, vec![0; 64]), None);
}

#[test]
fn image_without_pixels_needs_no_data() {
    assert_eq!(rgba_pixels(PixelFormat::Plain, 0, 7, vec![]), Some(vec![]));
    assert_eq!(rgba_pixels(PixelFormat::Dxt3, 0, 0, vec![]), Some(vec![]));
}

#[test]
fn block_expands_to_sixteen_pixels() {
    let pixels = rgba_pixels(PixelFormat::Dxt3, 4, 4, red_block(0x00)).unwrap();
    assert_eq!(pixels.len(), 64);
    for pixel in pixels.chunks(4) {
        assert_eq!(pixel, &[255, 0, 0, 0]);
    }
}

#[test]
fn block_alpha_comes_from_the_first_bytes() {
    let pixels = rgba_pixels(PixelFormat::Dxt3, 4, 4, red_block(0x0F)).unwrap();
    assert_eq!(&pixels[0..4], &[255, 0, 0, 255]);
    let clear = rgba_pixels(PixelFormat::Dxt3, 4, 4, red_block(0x00)).unwrap();
    assert_eq!(&clear[0..4], &[255, 0, 0, 0]);
}

#[test]
fn image_smaller_than_a_block_takes_a_whole_block() {
    let pixels = rgba_pixels(PixelFormat::Dxt3, 2, 3, red_block(0x00)).unwrap();
    assert_eq!(pixels.len(), 24);
    assert_eq!(rgba_pixels(PixelFormat::Dxt3, 2, 3, vec![0; 15]), None);
}

#[test]
fn image_of_five_columns_takes_two_blocks() {
    let mut data = red_block(0x00);
    assert_eq!(rgba_pixels(PixelFormat::Dxt3, 5, 4, data.clone()), None);
    data.extend(red_block(0x00));
    let pixels = rgba_pixels(PixelFormat::Dxt3, 5, 4, data).unwrap();
    assert_eq!(pixels.len(), 80);
    assert_eq!(&pixels[16..20], &[255, 0, 0, 0]);
}

#[test]
fn compressed_data_too_short_is_refused() {
    assert_eq!(rgba_pixels(PixelFormat::Dxt3, 4, 4, vec![0; 15]), None);
    assert_eq!(rgba_pixels(PixelFormat::Dxt3, 8, 8, vec![0; 63]), None);
    assert_eq!(rgba_pixels(PixelFormat::Dxt3, u32::MAX, u32::MAX, vec![0; 64]), None);
}
