use shadowin::contrast::calculate_contrast_color;
use shadowin::contrast::DARK_TEXT;
use shadowin::contrast::LIGHT_TEXT;
use shadowin::image_data::RasterImage;

fn image_of(width: u32, height: u32, data: Vec<u8>) -> RasterImage {
    RasterImage::from_raw(width, height, data).unwrap()
}

#[test]
fn all_black_yields_the_light_color() {
    let img = image_of(2, 2, vec![0, 0, 0, 255].repeat(4));
    assert_eq!(calculate_contrast_color(&img), LIGHT_TEXT);
    assert_eq!(LIGHT_TEXT, [240, 240, 240, 255]);
}

#[test]
fn all_white_yields_the_dark_color() {
    let img = image_of(2, 2, vec![255, 255, 255, 255].repeat(4));
    assert_eq!(calculate_contrast_color(&img), DARK_TEXT);
    assert_eq!(DARK_TEXT, [10, 10, 10, 255]);
}

#[test]
fn exact_half_luminance_falls_to_the_light_color() {
    // one black pixel and one white pixel: mean luminance exactly 1/2,
    // which is not strictly above the boundary
    let mut data = vec![0, 0, 0, 255];
    data.extend_from_slice(&[255, 255, 255, 255]);
    let img = image_of(2, 1, data);
    assert_eq!(calculate_contrast_color(&img), LIGHT_TEXT);
}

#[test]
fn barely_above_half_yields_the_dark_color() {
    // one white pixel and one almost-half pixel pushes the mean above 1/2
    let mut data = vec![255, 255, 255, 255];
    data.extend_from_slice(&[128, 128, 128, 255]);
    let img = image_of(2, 1, data);
    assert_eq!(calculate_contrast_color(&img), DARK_TEXT);
}

#[test]
fn empty_image_yields_the_light_color() {
    let img = image_of(0, 0, Vec::new());
    assert_eq!(calculate_contrast_color(&img), LIGHT_TEXT);
}

#[test]
fn alpha_channel_plays_no_part_in_luminance() {
    let img = image_of(1, 1, vec![255, 255, 255, 0]);
    assert_eq!(calculate_contrast_color(&img), DARK_TEXT);
}

#[test]
fn green_dominates_the_weighting() {
    // green alone carries 0.7152 > 1/2
    let img = image_of(1, 1, vec![0, 255, 0, 255]);
    assert_eq!(calculate_contrast_color(&img), DARK_TEXT);
    // red alone carries 0.2126 < 1/2
    let img = image_of(1, 1, vec![255, 0, 0, 255]);
    assert_eq!(calculate_contrast_color(&img), LIGHT_TEXT);
}
