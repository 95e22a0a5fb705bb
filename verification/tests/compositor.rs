use shadowin::compositor::blend_channel;
use shadowin::compositor::centered_text_origin;
use shadowin::compositor::draw_fallback_rect;
use shadowin::compositor::draw_glyphs_blended;
use shadowin::compositor::draw_glyphs_mask;
use shadowin::compositor::draw_image;
use shadowin::compositor::fill_frame;
use shadowin::compositor::scale_alpha;
use shadowin::compositor::GlyphPixel;
use shadowin::image_data::RasterImage;

#[test]
fn opaque_source_replaces_destination_exactly() {
    for dst in [0u8, 1, 17, 128, 254, 255] {
        for src in [0u8, 3, 99, 200, 255] {
            assert_eq!(blend_channel(dst, src, 255), src);
        }
    }
}

#[test]
fn transparent_source_leaves_destination_unchanged() {
    for dst in [0u8, 1, 17, 128, 254, 255] {
        for src in [0u8, 3, 99, 200, 255] {
            assert_eq!(blend_channel(dst, src, 0), dst);
        }
    }
}

#[test]
fn blend_at_half_alpha_mixes_exactly() {
    // (200*128 + 100*127) / 255 = 150 (integer division)
    assert_eq!(blend_channel(100, 200, 128), 150);
}

#[test]
fn scale_alpha_ends() {
    assert_eq!(scale_alpha(200, 255), 200);
    assert_eq!(scale_alpha(200, 0), 0);
    assert_eq!(scale_alpha(0, 200), 0);
    assert_eq!(scale_alpha(255, 128), 128);
}

#[test]
fn opaque_image_pixel_lands_exactly() {
    // 2x2 screen, destination mid-gray
    let mut frame = vec![100u8; 16];
    let img = RasterImage::from_raw(1, 1, vec![1, 2, 3, 255]).unwrap();
    draw_image(&mut frame, 2, &img, 1, 0, 255);
    // pixel (1,0) replaced exactly, all others untouched
    assert_eq!(&frame[4..8], &[1, 2, 3, 255]);
    assert_eq!(&frame[0..4], &[100, 100, 100, 100]);
    assert_eq!(&frame[8..16], &[100u8; 8]);
}

#[test]
fn transparent_image_pixel_changes_nothing() {
    let mut frame = vec![100u8; 16];
    let img = RasterImage::from_raw(1, 1, vec![1, 2, 3, 0]).unwrap();
    draw_image(&mut frame, 2, &img, 1, 0, 255);
    assert_eq!(frame, vec![100u8; 16]);
}

#[test]
fn zero_multiplier_changes_nothing() {
    let mut frame = vec![100u8; 16];
    let img = RasterImage::from_raw(2, 2, vec![255u8; 16]).unwrap();
    draw_image(&mut frame, 2, &img, 0, 0, 0);
    assert_eq!(frame, vec![100u8; 16]);
}

#[test]
fn image_pixels_outside_the_buffer_are_skipped() {
    // 1x1 screen; a 2x2 image at (-1,-1): only its bottom-right pixel
    // lands on the screen
    let mut frame = vec![0u8; 4];
    let mut data = Vec::new();
    for v in [10u8, 20, 30, 40] {
        data.extend_from_slice(&[v, v, v, 255]);
    }
    let img = RasterImage::from_raw(2, 2, data).unwrap();
    draw_image(&mut frame, 1, &img, -1, -1, 255);
    assert_eq!(frame, vec![40, 40, 40, 255]);
}

#[test]
fn fallback_rect_fills_exactly_its_region() {
    // 3x2 screen, 1x2 rectangle at (1,0)
    let mut frame = vec![0u8; 24];
    draw_fallback_rect(&mut frame, 3, 1, 0, 1, 2, [50, 50, 50, 255]);
    let mut expected = vec![0u8; 24];
    expected[4..8].copy_from_slice(&[50, 50, 50, 255]);
    expected[16..20].copy_from_slice(&[50, 50, 50, 255]);
    assert_eq!(frame, expected);
}

#[test]
fn fallback_rect_clips_to_the_buffer() {
    let mut frame = vec![7u8; 8];  // 2x1 screen
    draw_fallback_rect(&mut frame, 2, -5, -5, 100, 100, [1, 2, 3, 4]);
    assert_eq!(frame, vec![1, 2, 3, 4, 1, 2, 3, 4]);
}

#[test]
fn fill_frame_clears_whole_pixels_only() {
    let mut frame = vec![9u8; 10];  // two whole pixels and two stray bytes
    fill_frame(&mut frame, [1, 2, 3, 4]);
    assert_eq!(frame, vec![1, 2, 3, 4, 1, 2, 3, 4, 9, 9]);
}

#[test]
fn glyph_mask_honors_the_coverage_threshold() {
    let mut frame = vec![0u8; 8];  // 2x1 screen
    let glyphs = vec![
        GlyphPixel { dx: 0, dy: 0, coverage: 25 },  // at the threshold: skipped
        GlyphPixel { dx: 1, dy: 0, coverage: 26 },  // above: painted
    ];
    draw_glyphs_mask(&mut frame, 2, &glyphs, 0, 0, [220, 220, 220, 255]);
    assert_eq!(&frame[0..4], &[0, 0, 0, 0]);
    assert_eq!(&frame[4..8], &[220, 220, 220, 255]);
}

#[test]
fn blended_glyph_with_full_coverage_paints_the_color() {
    let mut frame = vec![0u8; 4];  // 1x1 screen
    let glyphs = vec![GlyphPixel { dx: 0, dy: 0, coverage: 255 }];
    draw_glyphs_blended(&mut frame, 1, &glyphs, 0, 0, [200, 100, 50, 255]);
    assert_eq!(frame, vec![200, 100, 50, 255]);
}

#[test]
fn blended_glyph_with_no_coverage_changes_nothing() {
    let mut frame = vec![30u8; 4];
    let glyphs = vec![GlyphPixel { dx: 0, dy: 0, coverage: 0 }];
    draw_glyphs_blended(&mut frame, 1, &glyphs, 0, 0, [200, 100, 50, 255]);
    assert_eq!(frame, vec![30u8; 4]);
}

#[test]
fn glyphs_off_screen_are_skipped() {
    let mut frame = vec![30u8; 4];
    let glyphs = vec![
        GlyphPixel { dx: -1, dy: 0, coverage: 255 },
        GlyphPixel { dx: 0, dy: 5, coverage: 255 },
    ];
    draw_glyphs_blended(&mut frame, 1, &glyphs, 0, 0, [200, 100, 50, 255]);
    assert_eq!(frame, vec![30u8; 4]);
}

#[test]
fn centered_origin_is_exact() {
    // region 200 wide at x=50, text 100 wide: origin 50 + 50
    let (ox, oy) = centered_text_origin(50, 50, 200, 60, 100, 30, 24);
    assert_eq!(ox, 100);
    assert_eq!(oy, 50 + 15 + 24);
    // text wider than the region centers by overhang toward the origin
    let (ox, _) = centered_text_origin(50, 0, 100, 10, 150, 10, 8);
    assert_eq!(ox, 50 - 25);
}
