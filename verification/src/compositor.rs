//! Alpha compositing into a row-major RGBA frame buffer.
//!
//! One "over" primitive serves both image layers and glyph coverage:
//! per channel, `out = (src * alpha + dst * (255 - alpha)) / 255` with
//! alpha in 0..=255, so a fully opaque source replaces the destination
//! exactly and a fully transparent one leaves it untouched. Any
//! destination pixel address outside the buffer is silently skipped.

use vstd::arithmetic::div_mod::lemma_div_pos_is_pos;
use vstd::arithmetic::div_mod::lemma_fundamental_div_mod;
use vstd::arithmetic::div_mod::lemma_fundamental_div_mod_converse;
use vstd::arithmetic::div_mod::lemma_mod_division_less_than_divisor;
use vstd::prelude::*;

use crate::image_data::ImageModel;
use crate::image_data::RasterImage;

verus! {

/// The "over" operator on one channel: the source weighted by alpha, the
/// destination by its complement, in exact integer arithmetic.
pub open spec fn spec_blend_channel(dst: u8, src: u8, alpha: u8) -> u8 {
    (((src as int) * (alpha as int) + (dst as int) * (255 - alpha as int)) / 255) as u8
}

/// Blends one source channel over one destination channel.
pub fn blend_channel(dst: u8, src: u8, alpha: u8) -> (r: u8)
    ensures
        r == spec_blend_channel(dst, src, alpha),
{
    proof {
        assert((src as int) * (alpha as int) + (dst as int) * (255 - alpha as int) <= 255 * 255)
            by (nonlinear_arith)
            requires
                src as int <= 255 && dst as int <= 255 && 0 <= alpha as int <= 255,
        ;
        assert((src as int) * (alpha as int) >= 0 && (dst as int) * (255 - alpha as int) >= 0)
            by (nonlinear_arith)
            requires
                src as int >= 0 && dst as int >= 0 && 0 <= alpha as int <= 255,
        ;
    }
    let v: u32 = (src as u32) * (alpha as u32) + (dst as u32) * (255 - alpha as u32);
    (v / 255) as u8
}

/// A layer's alpha multiplier applied to a pixel's own alpha.
pub open spec fn spec_scale_alpha(alpha: u8, multiplier: u8) -> u8 {
    (((alpha as int) * (multiplier as int)) / 255) as u8
}

/// Scales a pixel's alpha by a layer's alpha multiplier.
pub fn scale_alpha(alpha: u8, multiplier: u8) -> (r: u8)
    ensures
        r == spec_scale_alpha(alpha, multiplier),
{
    proof {
        assert(0 <= (alpha as int) * (multiplier as int) <= 255 * 255) by (nonlinear_arith)
            requires
                0 <= alpha as int <= 255 && 0 <= multiplier as int <= 255,
        ;
    }
    (((alpha as u32) * (multiplier as u32)) / 255) as u8
}

/// Law: blending a fully opaque source channel yields exactly the source;
/// blending a fully transparent one leaves the destination unchanged.
pub proof fn lemma_blend_opaque_transparent(dst: u8, src: u8)
    ensures
        spec_blend_channel(dst, src, 255) == src,
        spec_blend_channel(dst, src, 0) == dst,
{
    assert(((src as int) * 255 + (dst as int) * 0) / 255 == src as int) by (nonlinear_arith);
    assert(((src as int) * 0 + (dst as int) * 255) / 255 == dst as int) by (nonlinear_arith);
}

/// Law: a full alpha multiplier keeps a pixel's alpha; a zero multiplier,
/// or a fully transparent pixel, yields zero.
pub proof fn lemma_scale_alpha_ends(alpha: u8, multiplier: u8)
    ensures
        spec_scale_alpha(alpha, 255) == alpha,
        spec_scale_alpha(alpha, 0) == 0,
        spec_scale_alpha(0, multiplier) == 0,
{
    assert((alpha as int) * 255 / 255 == alpha as int) by (nonlinear_arith);
    assert((alpha as int) * 0 / 255 == 0) by (nonlinear_arith);
    assert(0 * (multiplier as int) / 255 == 0) by (nonlinear_arith);
}

/// Selects one byte of an RGBA quadruple by channel index.
pub open spec fn quad_byte(b0: u8, b1: u8, b2: u8, b3: u8, c: int) -> u8 {
    if c == 0 {
        b0
    } else if c == 1 {
        b1
    } else if c == 2 {
        b2
    } else {
        b3
    }
}

/// The column of the pixel that byte `i` of a frame of width `sw` belongs
/// to.
pub open spec fn byte_px(sw: int, i: int) -> int {
    (i / 4) % sw
}

/// The row of the pixel that byte `i` belongs to.
pub open spec fn byte_py(sw: int, i: int) -> int {
    (i / 4) / sw
}

/// The channel (0 red, 1 green, 2 blue, 3 alpha) of byte `i`.
pub open spec fn byte_chan(i: int) -> int {
    i % 4
}

/// All four bytes of the pixel that byte `i` belongs to lie inside the
/// frame.
pub open spec fn whole_pixel(i: int, len: int) -> bool {
    4 * (i / 4) + 4 <= len
}

/// The pixel address (px, py) denotes a whole pixel inside the frame.
pub open spec fn pixel_writable(len: int, sw: int, px: int, py: int) -> bool {
    0 <= px < sw && 0 <= py && 4 * (py * sw + px) + 4 <= len
}

/// The frame after storing an RGBA quadruple at pixel (px, py); an
/// address outside the frame leaves it unchanged.
pub open spec fn spec_store_pixel(
    frame: Seq<u8>,
    sw: int,
    px: int,
    py: int,
    b0: u8,
    b1: u8,
    b2: u8,
    b3: u8,
) -> Seq<u8> {
    if pixel_writable(frame.len() as int, sw, px, py) {
        let s = 4 * (py * sw + px);
        frame.update(s, b0).update(s + 1, b1).update(s + 2, b2).update(s + 3, b3)
    } else {
        frame
    }
}

/// Byte `i` belongs to the pixel at (px, py).
pub open spec fn byte_of_pixel(i: int, len: int, sw: int, px: int, py: int) -> bool {
    sw > 0 && whole_pixel(i, len) && byte_px(sw, i) == px && byte_py(sw, i) == py
}

/// Storing a quadruple rewrites exactly the four bytes of its pixel.
pub proof fn lemma_store_pixel_pointwise(
    frame: Seq<u8>,
    sw: int,
    px: int,
    py: int,
    b0: u8,
    b1: u8,
    b2: u8,
    b3: u8,
)
    requires
        sw > 0,
    ensures
        spec_store_pixel(frame, sw, px, py, b0, b1, b2, b3).len() == frame.len(),
        forall|i: int|
            0 <= i < frame.len() ==> spec_store_pixel(frame, sw, px, py, b0, b1, b2, b3)[i] == (
            if byte_of_pixel(i, frame.len() as int, sw, px, py) {
                quad_byte(b0, b1, b2, b3, byte_chan(i))
            } else {
                frame[i]
            }),
{
    let len = frame.len() as int;
    let r = spec_store_pixel(frame, sw, px, py, b0, b1, b2, b3);
    if pixel_writable(len, sw, px, py) {
        let p = py * sw + px;
        let s = 4 * p;
        assert forall|i: int| 0 <= i < len implies r[i] == (
        if byte_of_pixel(i, len, sw, px, py) {
            quad_byte(b0, b1, b2, b3, byte_chan(i))
        } else {
            frame[i]
        }) by {
            lemma_fundamental_div_mod(i, 4);
            lemma_mod_division_less_than_divisor(i, 4);
            if s <= i < s + 4 {
                lemma_fundamental_div_mod_converse(i, 4, p, i - s);
                lemma_fundamental_div_mod_converse(p, sw, py, px);
                assert(byte_of_pixel(i, len, sw, px, py));
            } else {
                if byte_of_pixel(i, len, sw, px, py) {
                    lemma_fundamental_div_mod(i / 4, sw);
                    assert(i / 4 == p);
                    assert(s <= i < s + 4);
                }
            }
        }
    } else {
        assert forall|i: int| 0 <= i < len implies !byte_of_pixel(i, len, sw, px, py) by {
            if byte_of_pixel(i, len, sw, px, py) {
                lemma_div_pos_is_pos(i, 4);
                lemma_mod_division_less_than_divisor(i / 4, sw);
                lemma_div_pos_is_pos(i / 4, sw);
                lemma_fundamental_div_mod(i / 4, sw);
                assert(sw * py == py * sw) by (nonlinear_arith);
                assert(py * sw + px == i / 4);
                lemma_fundamental_div_mod(i, 4);
                lemma_mod_division_less_than_divisor(i, 4);
                assert(4 * (py * sw + px) + 4 <= len);
            }
        }
    }
}

/// Writes one RGBA quadruple at pixel (px, py); a destination address
/// outside the buffer is silently skipped.
pub fn store_pixel(frame: &mut Vec<u8>, screen_width: u32, px: i64, py: i64, quad: [u8; 4])
    ensures
        final(frame)@ == spec_store_pixel(
            old(frame)@,
            screen_width as int,
            px as int,
            py as int,
            quad[0],
            quad[1],
            quad[2],
            quad[3],
        ),
{
    let len = frame.len();
    if 0 <= px && px < screen_width as i64 && 0 <= py {
        proof {
            assert((py as int) * (screen_width as int) < 0x8000_0000_0000_0000_0000_0000)
                by (nonlinear_arith)
                requires
                    0 <= (py as int) < 0x8000_0000_0000_0000 && (screen_width as int)
                        < 0x1_0000_0000,
            ;
            assert((py as int) * (screen_width as int) >= 0) by (nonlinear_arith)
                requires
                    (py as int) >= 0 && (screen_width as int) >= 0,
            ;
        }
        let base: u128 = 4 * ((py as u128) * (screen_width as u128) + (px as u128));
        if base + 4 <= len as u128 {
            let s = base as usize;
            frame.set(s, quad[0]);
            frame.set(s + 1, quad[1]);
            frame.set(s + 2, quad[2]);
            frame.set(s + 3, quad[3]);
        }
    }
}

/// The frame after blending a source quadruple over the pixel at
/// (px, py) with the given alpha; an address outside the frame leaves it
/// unchanged.
pub open spec fn spec_blend_pixel(
    frame: Seq<u8>,
    sw: int,
    px: int,
    py: int,
    s0: u8,
    s1: u8,
    s2: u8,
    s3: u8,
    alpha: u8,
) -> Seq<u8> {
    let s = 4 * (py * sw + px);
    spec_store_pixel(
        frame,
        sw,
        px,
        py,
        spec_blend_channel(frame[s], s0, alpha),
        spec_blend_channel(frame[s + 1], s1, alpha),
        spec_blend_channel(frame[s + 2], s2, alpha),
        spec_blend_channel(frame[s + 3], s3, alpha),
    )
}

/// Blends one source quadruple over the pixel at (px, py); a destination
/// address outside the buffer is silently skipped.
pub fn blend_pixel(
    frame: &mut Vec<u8>,
    screen_width: u32,
    px: i64,
    py: i64,
    src: [u8; 4],
    alpha: u8,
)
    ensures
        final(frame)@ == spec_blend_pixel(
            old(frame)@,
            screen_width as int,
            px as int,
            py as int,
            src[0],
            src[1],
            src[2],
            src[3],
            alpha,
        ),
{
    let len = frame.len();
    if 0 <= px && px < screen_width as i64 && 0 <= py {
        proof {
            assert((py as int) * (screen_width as int) < 0x8000_0000_0000_0000_0000_0000)
                by (nonlinear_arith)
                requires
                    0 <= (py as int) < 0x8000_0000_0000_0000 && (screen_width as int)
                        < 0x1_0000_0000,
            ;
            assert((py as int) * (screen_width as int) >= 0) by (nonlinear_arith)
                requires
                    (py as int) >= 0 && (screen_width as int) >= 0,
            ;
        }
        let base: u128 = 4 * ((py as u128) * (screen_width as u128) + (px as u128));
        if base + 4 <= len as u128 {
            let s = base as usize;
            let d0 = frame[s];
            let d1 = frame[s + 1];
            let d2 = frame[s + 2];
            let d3 = frame[s + 3];
            frame.set(s, blend_channel(d0, src[0], alpha));
            frame.set(s + 1, blend_channel(d1, src[1], alpha));
            frame.set(s + 2, blend_channel(d2, src[2], alpha));
            frame.set(s + 3, blend_channel(d3, src[3], alpha));
        }
    }
}

/// Byte `i` lies in the painted prefix of a w×h rectangle at (x, y):
/// `rows` full rows, then `cols` further pixels of the next row.
pub open spec fn byte_painted_upto(
    len: int,
    sw: int,
    i: int,
    x: int,
    y: int,
    w: int,
    h: int,
    rows: int,
    cols: int,
) -> bool {
    let px = byte_px(sw, i);
    let py = byte_py(sw, i);
    sw > 0 && whole_pixel(i, len) && x <= px < x + w && y <= py < y + h && (py - y < rows || (py
        - y == rows && px - x < cols))
}

/// The frame after the painted prefix of a rectangle has been filled with
/// a flat color.
pub open spec fn spec_fill_rect_partial(
    frame: Seq<u8>,
    sw: int,
    x: int,
    y: int,
    w: int,
    h: int,
    rows: int,
    cols: int,
    color: [u8; 4],
) -> Seq<u8> {
    Seq::new(
        frame.len(),
        |i: int|
            if byte_painted_upto(frame.len() as int, sw, i, x, y, w, h, rows, cols) {
                color[byte_chan(i)]
            } else {
                frame[i]
            },
    )
}

/// The frame after a w×h rectangle at (x, y) has been filled with a flat
/// color; pixels outside the frame are left unchanged.
pub open spec fn spec_fill_rect(
    frame: Seq<u8>,
    sw: int,
    x: int,
    y: int,
    w: int,
    h: int,
    color: [u8; 4],
) -> Seq<u8> {
    spec_fill_rect_partial(frame, sw, x, y, w, h, h, 0, color)
}

/// Fills a w×h rectangle at (x, y) with a flat color: the fallback a
/// widget draws for a key with no cache entry. Destination pixel
/// addresses outside the buffer are silently skipped.
pub fn draw_fallback_rect(
    frame: &mut Vec<u8>,
    screen_width: u32,
    x: i32,
    y: i32,
    w: u32,
    h: u32,
    color: [u8; 4],
)
    ensures
        final(frame)@ == spec_fill_rect(
            old(frame)@,
            screen_width as int,
            x as int,
            y as int,
            w as int,
            h as int,
            color,
        ),
{
    let ghost orig = frame@;
    let ghost sw = screen_width as int;
    let ghost xi = x as int;
    let ghost yi = y as int;
    let ghost wi = w as int;
    let ghost hi = h as int;
    proof {
        assert(frame@ =~= spec_fill_rect_partial(orig, sw, xi, yi, wi, hi, 0, 0, color));
    }
    let mut row: u32 = 0;
    while row < h
        invariant
            row <= h,
            sw == screen_width as int,
            xi == x as int,
            yi == y as int,
            wi == w as int,
            hi == h as int,
            frame@.len() == orig.len(),
            frame@ == spec_fill_rect_partial(orig, sw, xi, yi, wi, hi, row as int, 0, color),
        decreases h - row,
    {
        let mut col: u32 = 0;
        while col < w
            invariant
                col <= w,
                row < h,
                sw == screen_width as int,
                xi == x as int,
                yi == y as int,
                wi == w as int,
                hi == h as int,
                frame@.len() == orig.len(),
                frame@ == spec_fill_rect_partial(
                    orig,
                    sw,
                    xi,
                    yi,
                    wi,
                    hi,
                    row as int,
                    col as int,
                    color,
                ),
            decreases w - col,
        {
            let px: i64 = x as i64 + col as i64;
            let py: i64 = y as i64 + row as i64;
            let ghost before = frame@;
            store_pixel(frame, screen_width, px, py, color);
            proof {
                if screen_width > 0 {
                    lemma_store_pixel_pointwise(
                        before,
                        sw,
                        px as int,
                        py as int,
                        color[0],
                        color[1],
                        color[2],
                        color[3],
                    );
                }
                assert forall|i: int| 0 <= i < orig.len() implies frame@[i]
                    == spec_fill_rect_partial(
                    orig,
                    sw,
                    xi,
                    yi,
                    wi,
                    hi,
                    row as int,
                    col as int + 1,
                    color,
                )[i] by {
                    let len = orig.len() as int;
                    if byte_of_pixel(i, len, sw, px as int, py as int) {
                        assert(byte_painted_upto(
                            len,
                            sw,
                            i,
                            xi,
                            yi,
                            wi,
                            hi,
                            row as int,
                            col as int + 1,
                        ));
                    }
                }
                assert(frame@ =~= spec_fill_rect_partial(
                    orig,
                    sw,
                    xi,
                    yi,
                    wi,
                    hi,
                    row as int,
                    col as int + 1,
                    color,
                ));
            }
            col = col + 1;
        }
        proof {
            assert(spec_fill_rect_partial(orig, sw, xi, yi, wi, hi, row as int, wi, color)
                =~= spec_fill_rect_partial(orig, sw, xi, yi, wi, hi, row as int + 1, 0, color));
        }
        row = row + 1;
    }
}

/// The effective alpha of an image layer's pixel at (col, row): the
/// pixel's own alpha scaled by the layer's multiplier.
pub open spec fn image_alpha(img: ImageModel, col: int, row: int, mult: u8) -> u8 {
    spec_scale_alpha(img.channel(col, row, 3), mult)
}

/// The source byte an image layer presents for channel `c` at (col, row):
/// color channels come from the image, the alpha channel is the effective
/// alpha.
pub open spec fn image_src_channel(img: ImageModel, col: int, row: int, c: int, mult: u8) -> u8 {
    if c == 3 {
        image_alpha(img, col, row, mult)
    } else {
        img.channel(col, row, c)
    }
}

/// Byte `i` of the frame after the image layer at (x, y) has been blended
/// over it.
pub open spec fn blended_image_byte(
    frame: Seq<u8>,
    sw: int,
    img: ImageModel,
    x: int,
    y: int,
    mult: u8,
    i: int,
) -> u8 {
    let col = byte_px(sw, i) - x;
    let row = byte_py(sw, i) - y;
    spec_blend_channel(
        frame[i],
        image_src_channel(img, col, row, byte_chan(i), mult),
        image_alpha(img, col, row, mult),
    )
}

/// The frame after the painted prefix of an image layer has been blended
/// over it.
pub open spec fn spec_draw_image_partial(
    frame: Seq<u8>,
    sw: int,
    img: ImageModel,
    x: int,
    y: int,
    rows: int,
    cols: int,
    mult: u8,
) -> Seq<u8> {
    Seq::new(
        frame.len(),
        |i: int|
            if byte_painted_upto(
                frame.len() as int,
                sw,
                i,
                x,
                y,
                img.width as int,
                img.height as int,
                rows,
                cols,
            ) {
                blended_image_byte(frame, sw, img, x, y, mult, i)
            } else {
                frame[i]
            },
    )
}

/// The frame after a whole image layer at (x, y) has been blended over
/// it, the layer's alpha scaled by `mult`; pixels outside the frame are
/// left unchanged.
pub open spec fn spec_draw_image(
    frame: Seq<u8>,
    sw: int,
    img: ImageModel,
    x: int,
    y: int,
    mult: u8,
) -> Seq<u8> {
    spec_draw_image_partial(frame, sw, img, x, y, img.height as int, 0, mult)
}

/// A pixel's row-major index lies below the pixel count.
proof fn lemma_row_major_index_bound(col: int, row: int, w: int, h: int)
    requires
        0 <= col < w,
        0 <= row < h,
    ensures
        0 <= row * w + col < w * h,
{
    assert(0 <= row * w + col < w * h) by (nonlinear_arith)
        requires
            0 <= col < w && 0 <= row < h,
    ;
}

/// Blends an image over the frame at (x, y), the image's alpha scaled by
/// `alpha_multiplier`; destination pixel addresses outside the buffer are
/// silently skipped.
pub fn draw_image(
    frame: &mut Vec<u8>,
    screen_width: u32,
    image: &RasterImage,
    x: i32,
    y: i32,
    alpha_multiplier: u8,
)
    requires
        image.wf(),
    ensures
        final(frame)@ == spec_draw_image(
            old(frame)@,
            screen_width as int,
            image@,
            x as int,
            y as int,
            alpha_multiplier,
        ),
{
    let ghost orig = frame@;
    let ghost sw = screen_width as int;
    let ghost xi = x as int;
    let ghost yi = y as int;
    let ghost img = image@;
    let iw = image.width();
    let ih = image.height();
    let data = image.data();
    let data_len: usize = data.len();
    proof {
        assert(frame@ =~= spec_draw_image_partial(orig, sw, img, xi, yi, 0, 0, alpha_multiplier));
    }
    let mut row: u32 = 0;
    while row < ih
        invariant
            row <= ih,
            sw == screen_width as int,
            xi == x as int,
            yi == y as int,
            img == image@,
            img.wf(),
            iw as int == img.width as int,
            ih as int == img.height as int,
            data@ == img.data,
            data_len == data@.len(),
            frame@.len() == orig.len(),
            frame@ == spec_draw_image_partial(orig, sw, img, xi, yi, row as int, 0, alpha_multiplier),
        decreases ih - row,
    {
        let mut col: u32 = 0;
        while col < iw
            invariant
                col <= iw,
                row < ih,
                sw == screen_width as int,
                xi == x as int,
                yi == y as int,
                img == image@,
                img.wf(),
                iw as int == img.width as int,
                ih as int == img.height as int,
                data@ == img.data,
                data_len == data@.len(),
                frame@.len() == orig.len(),
                frame@ == spec_draw_image_partial(
                    orig,
                    sw,
                    img,
                    xi,
                    yi,
                    row as int,
                    col as int,
                    alpha_multiplier,
                ),
            decreases iw - col,
        {
            proof {
                lemma_row_major_index_bound(col as int, row as int, iw as int, ih as int);
            }
            let sbase: usize = (((row as u64) * (iw as u64) + (col as u64)) * 4) as usize;
            let sr = data[sbase];
            let sg = data[sbase + 1];
            let sb = data[sbase + 2];
            let sa = data[sbase + 3];
            let alpha = scale_alpha(sa, alpha_multiplier);
            let px: i64 = x as i64 + col as i64;
            let py: i64 = y as i64 + row as i64;
            let ghost before = frame@;
            blend_pixel(frame, screen_width, px, py, [sr, sg, sb, alpha], alpha);
            proof {
                let len = orig.len() as int;
                if screen_width > 0 {
                    let s = 4 * ((py as int) * sw + (px as int));
                    lemma_store_pixel_pointwise(
                        before,
                        sw,
                        px as int,
                        py as int,
                        spec_blend_channel(before[s], sr, alpha),
                        spec_blend_channel(before[s + 1], sg, alpha),
                        spec_blend_channel(before[s + 2], sb, alpha),
                        spec_blend_channel(before[s + 3], alpha, alpha),
                    );
                }
                assert forall|i: int| 0 <= i < orig.len() implies frame@[i]
                    == spec_draw_image_partial(
                    orig,
                    sw,
                    img,
                    xi,
                    yi,
                    row as int,
                    col as int + 1,
                    alpha_multiplier,
                )[i] by {
                    if byte_of_pixel(i, len, sw, px as int, py as int) {
                        let s = 4 * ((py as int) * sw + (px as int));
                        lemma_fundamental_div_mod(i, 4);
                        lemma_mod_division_less_than_divisor(i, 4);
                        lemma_fundamental_div_mod(i / 4, sw);
                        assert(i / 4 == sw * (py as int) + (px as int));
                        assert(i == 4 * (i / 4) + i % 4);
                        assert(0 <= i % 4 < 4);
                        assert(s == 4 * (i / 4));
                        assert(byte_painted_upto(
                            len,
                            sw,
                            i,
                            xi,
                            yi,
                            img.width as int,
                            img.height as int,
                            row as int,
                            col as int + 1,
                        ));
                        assert(s <= i < s + 4);
                        assert(before[i] == orig[i]);
                        assert(byte_chan(i) == i - s);
                    }
                }
                assert(frame@ =~= spec_draw_image_partial(
                    orig,
                    sw,
                    img,
                    xi,
                    yi,
                    row as int,
                    col as int + 1,
                    alpha_multiplier,
                ));
            }
            col = col + 1;
        }
        proof {
            assert(spec_draw_image_partial(orig, sw, img, xi, yi, row as int, iw as int,
                alpha_multiplier) =~= spec_draw_image_partial(orig, sw, img, xi, yi,
                row as int + 1, 0, alpha_multiplier));
        }
        row = row + 1;
    }
}

/// One positioned coverage sample from the font rasterizer: an offset
/// from the text origin and an antialiasing weight scaled to 0..=255.
#[derive(PartialEq, Eq, Structural, Clone, Copy, Debug)]
pub struct GlyphPixel {
    pub dx: i32,
    pub dy: i32,
    pub coverage: u8,
}

/// The frame after the glyph coverage samples have been blended over it,
/// in order, at origin (ox, oy): each sample blends the text color with
/// the color's alpha scaled by its coverage.
pub open spec fn spec_draw_glyphs_blended(
    frame: Seq<u8>,
    sw: int,
    glyphs: Seq<GlyphPixel>,
    ox: int,
    oy: int,
    color: [u8; 4],
) -> Seq<u8>
    decreases glyphs.len(),
{
    if glyphs.len() == 0 {
        frame
    } else {
        let prev = spec_draw_glyphs_blended(frame, sw, glyphs.drop_last(), ox, oy, color);
        let g = glyphs.last();
        let a = spec_scale_alpha(color[3], g.coverage);
        spec_blend_pixel(prev, sw, ox + g.dx, oy + g.dy, color[0], color[1], color[2], a, a)
    }
}

/// Draws text as antialiased coverage: each sample's coverage value acts
/// as its own alpha against the already-composited background.
pub fn draw_glyphs_blended(
    frame: &mut Vec<u8>,
    screen_width: u32,
    glyphs: &Vec<GlyphPixel>,
    ox: i64,
    oy: i64,
    color: [u8; 4],
)
    requires
        -0x8000_0000_0000 <= ox as int <= 0x8000_0000_0000,
        -0x8000_0000_0000 <= oy as int <= 0x8000_0000_0000,
    ensures
        final(frame)@ == spec_draw_glyphs_blended(
            old(frame)@,
            screen_width as int,
            glyphs@,
            ox as int,
            oy as int,
            color,
        ),
{
    let ghost orig = frame@;
    let mut k: usize = 0;
    while k < glyphs.len()
        invariant
            k <= glyphs@.len(),
            -0x8000_0000_0000 <= ox as int <= 0x8000_0000_0000,
            -0x8000_0000_0000 <= oy as int <= 0x8000_0000_0000,
            frame@ == spec_draw_glyphs_blended(
                orig,
                screen_width as int,
                glyphs@.take(k as int),
                ox as int,
                oy as int,
                color,
            ),
        decreases glyphs@.len() - k,
    {
        let g = glyphs[k];
        let a = scale_alpha(color[3], g.coverage);
        let px: i64 = ox + g.dx as i64;
        let py: i64 = oy + g.dy as i64;
        blend_pixel(frame, screen_width, px, py, [color[0], color[1], color[2], a], a);
        proof {
            assert(glyphs@.take(k as int + 1).drop_last() =~= glyphs@.take(k as int));
            assert(glyphs@.take(k as int + 1).last() == glyphs@[k as int]);
        }
        k = k + 1;
    }
    proof {
        assert(glyphs@.take(glyphs@.len() as int) =~= glyphs@);
    }
}

/// Coverage above this threshold paints the text color outright when text
/// is drawn as an opaque mask.
pub const MASK_COVERAGE_THRESHOLD: u8 = 25;

/// The frame after the glyph coverage samples have been painted as an
/// opaque mask: samples above the coverage threshold set the color
/// outright, the rest are skipped.
pub open spec fn spec_draw_glyphs_mask(
    frame: Seq<u8>,
    sw: int,
    glyphs: Seq<GlyphPixel>,
    ox: int,
    oy: int,
    color: [u8; 4],
) -> Seq<u8>
    decreases glyphs.len(),
{
    if glyphs.len() == 0 {
        frame
    } else {
        let prev = spec_draw_glyphs_mask(frame, sw, glyphs.drop_last(), ox, oy, color);
        let g = glyphs.last();
        if g.coverage > MASK_COVERAGE_THRESHOLD {
            spec_store_pixel(prev, sw, ox + g.dx, oy + g.dy, color[0], color[1], color[2],
                color[3])
        } else {
            prev
        }
    }
}

/// Draws text as an opaque mask, the style used for status and input
/// text: samples above the coverage threshold get the full text color.
pub fn draw_glyphs_mask(
    frame: &mut Vec<u8>,
    screen_width: u32,
    glyphs: &Vec<GlyphPixel>,
    ox: i64,
    oy: i64,
    color: [u8; 4],
)
    requires
        -0x8000_0000_0000 <= ox as int <= 0x8000_0000_0000,
        -0x8000_0000_0000 <= oy as int <= 0x8000_0000_0000,
    ensures
        final(frame)@ == spec_draw_glyphs_mask(
            old(frame)@,
            screen_width as int,
            glyphs@,
            ox as int,
            oy as int,
            color,
        ),
{
    let ghost orig = frame@;
    let mut k: usize = 0;
    while k < glyphs.len()
        invariant
            k <= glyphs@.len(),
            -0x8000_0000_0000 <= ox as int <= 0x8000_0000_0000,
            -0x8000_0000_0000 <= oy as int <= 0x8000_0000_0000,
            frame@ == spec_draw_glyphs_mask(
                orig,
                screen_width as int,
                glyphs@.take(k as int),
                ox as int,
                oy as int,
                color,
            ),
        decreases glyphs@.len() - k,
    {
        let g = glyphs[k];
        if g.coverage > MASK_COVERAGE_THRESHOLD {
            let px: i64 = ox + g.dx as i64;
            let py: i64 = oy + g.dy as i64;
            store_pixel(frame, screen_width, px, py, color);
        }
        proof {
            assert(glyphs@.take(k as int + 1).drop_last() =~= glyphs@.take(k as int));
            assert(glyphs@.take(k as int + 1).last() == glyphs@[k as int]);
        }
        k = k + 1;
    }
    proof {
        assert(glyphs@.take(glyphs@.len() as int) =~= glyphs@);
    }
}

/// The coordinate at which a span of length `inner` starts when centered
/// in a span of length `outer` starting at `base`, rounding toward
/// `base`.
pub open spec fn spec_centered(base: int, outer: int, inner: int) -> int {
    if inner <= outer {
        base + (outer - inner) / 2
    } else {
        base - (inner - outer) / 2
    }
}

/// The origin of a text block of the given advance width and line height
/// drawn centered in a w×h region at (x, y); the vertical coordinate is
/// the baseline, the ascent below the centered top.
pub fn centered_text_origin(
    x: i32,
    y: i32,
    w: u32,
    h: u32,
    text_width: u32,
    text_height: u32,
    ascent: u32,
) -> (r: (i64, i64))
    ensures
        r.0 == spec_centered(x as int, w as int, text_width as int),
        r.1 == spec_centered(y as int, h as int, text_height as int) + ascent,
{
    let tx: i64 = if text_width <= w {
        x as i64 + ((w - text_width) / 2) as i64
    } else {
        x as i64 - ((text_width - w) / 2) as i64
    };
    let ty: i64 = if text_height <= h {
        y as i64 + ((h - text_height) / 2) as i64 + ascent as i64
    } else {
        y as i64 - ((text_height - h) / 2) as i64 + ascent as i64
    };
    (tx, ty)
}

/// The frame after every whole pixel has been cleared to a flat color;
/// trailing bytes of a partial pixel are left unchanged.
pub open spec fn spec_fill_frame(frame: Seq<u8>, color: [u8; 4]) -> Seq<u8> {
    Seq::new(
        frame.len(),
        |i: int|
            if whole_pixel(i, frame.len() as int) {
                color[byte_chan(i)]
            } else {
                frame[i]
            },
    )
}

/// The frame after the first `upto` pixels have been cleared to a flat
/// color.
pub open spec fn spec_fill_frame_partial(frame: Seq<u8>, color: [u8; 4], upto: int) -> Seq<u8> {
    Seq::new(
        frame.len(),
        |i: int|
            if i < 4 * upto && whole_pixel(i, frame.len() as int) {
                color[byte_chan(i)]
            } else {
                frame[i]
            },
    )
}

/// Clears every whole pixel of the frame to a flat color, as the frame
/// loop does before widgets draw.
pub fn fill_frame(frame: &mut Vec<u8>, color: [u8; 4])
    ensures
        final(frame)@ == spec_fill_frame(old(frame)@, color),
{
    let ghost orig = frame@;
    let len = frame.len();
    let pixels = len / 4;
    proof {
        assert(frame@ =~= spec_fill_frame_partial(orig, color, 0));
    }
    let mut p: usize = 0;
    while p < pixels
        invariant
            p <= pixels,
            pixels == orig.len() / 4,
            len == orig.len(),
            frame@.len() == orig.len(),
            frame@ == spec_fill_frame_partial(orig, color, p as int),
        decreases pixels - p,
    {
        proof {
            lemma_fundamental_div_mod(len as int, 4);
        }
        let s = p * 4;
        let ghost before = frame@;
        frame.set(s, color[0]);
        frame.set(s + 1, color[1]);
        frame.set(s + 2, color[2]);
        frame.set(s + 3, color[3]);
        proof {
            assert forall|i: int| 0 <= i < orig.len() implies frame@[i]
                == spec_fill_frame_partial(orig, color, p as int + 1)[i] by {
                lemma_fundamental_div_mod(i, 4);
                lemma_mod_division_less_than_divisor(i, 4);
                if s <= i < s + 4 {
                    lemma_fundamental_div_mod_converse(i, 4, p as int, i - s);
                }
            }
            assert(frame@ =~= spec_fill_frame_partial(orig, color, p as int + 1));
        }
        p = p + 1;
    }
    proof {
        lemma_fundamental_div_mod(len as int, 4);
        assert forall|i: int| 0 <= i < orig.len() implies frame@[i] == spec_fill_frame(
            orig,
            color,
        )[i] by {
            lemma_fundamental_div_mod(i, 4);
            lemma_mod_division_less_than_divisor(i, 4);
            if whole_pixel(i, orig.len() as int) {
                assert(4 * (i / 4) + 4 <= len as int);
                assert(i / 4 < pixels);
            }
        }
        assert(frame@ =~= spec_fill_frame(orig, color));
    }
}

/// A text block rasterized by the font engine: its positioned coverage
/// samples, its advance width, its line height, and the ascent from the
/// top of the line to the baseline.
pub struct GlyphRaster {
    pub pixels: Vec<GlyphPixel>,
    pub width: u32,
    pub height: u32,
    pub ascent: u32,
}

/// Law: a layer whose pixels are all fully transparent, drawn at any
/// alpha multiplier, leaves the whole frame exactly unchanged.
pub proof fn lemma_transparent_layer_leaves_frame(
    frame: Seq<u8>,
    sw: int,
    img: ImageModel,
    x: int,
    y: int,
    mult: u8,
)
    requires
        img.wf(),
        forall|p: int| 0 <= p < img.pixel_count() ==> #[trigger] img.data[4 * p + 3] == 0,
    ensures
        spec_draw_image(frame, sw, img, x, y, mult) == frame,
{
    let r = spec_draw_image(frame, sw, img, x, y, mult);
    let len = frame.len() as int;
    assert forall|i: int| 0 <= i < len implies r[i] == frame[i] by {
        if byte_painted_upto(len, sw, i, x, y, img.width as int, img.height as int,
            img.height as int, 0) {
            let col = byte_px(sw, i) - x;
            let row = byte_py(sw, i) - y;
            lemma_row_major_index_bound(col, row, img.width as int, img.height as int);
            assert(img.data[4 * (row * img.width + col) + 3] == 0);
            lemma_scale_alpha_ends(img.channel(col, row, 3), mult);
            lemma_blend_opaque_transparent(
                frame[i],
                image_src_channel(img, col, row, byte_chan(i), mult),
            );
        }
    }
    assert(r =~= frame);
}

/// Law: a layer whose pixels are all fully opaque, drawn at the full
/// alpha multiplier, replaces every destination byte it covers with
/// exactly the corresponding source byte.
pub proof fn lemma_opaque_layer_replaces_region(
    frame: Seq<u8>,
    sw: int,
    img: ImageModel,
    x: int,
    y: int,
    i: int,
)
    requires
        img.wf(),
        forall|p: int| 0 <= p < img.pixel_count() ==> #[trigger] img.data[4 * p + 3] == 255,
        0 <= i < frame.len(),
        byte_painted_upto(
            frame.len() as int,
            sw,
            i,
            x,
            y,
            img.width as int,
            img.height as int,
            img.height as int,
            0,
        ),
    ensures
        spec_draw_image(frame, sw, img, x, y, 255)[i] == img.channel(
            byte_px(sw, i) - x,
            byte_py(sw, i) - y,
            byte_chan(i),
        ),
{
    let col = byte_px(sw, i) - x;
    let row = byte_py(sw, i) - y;
    lemma_row_major_index_bound(col, row, img.width as int, img.height as int);
    assert(img.data[4 * (row * img.width + col) + 3] == 255);
    lemma_scale_alpha_ends(img.channel(col, row, 3), 255);
    lemma_blend_opaque_transparent(
        frame[i],
        image_src_channel(img, col, row, byte_chan(i), 255),
    );
}

} // verus!
