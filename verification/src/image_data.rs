//! Decoded raster images: fixed-size RGBA bitmaps, immutable after
//! creation, shared read-only by the cache and by every widget drawing
//! them.

use vstd::prelude::*;

verus! {

/// The mathematical model of a raster image: its dimensions and its raw
/// RGBA bytes, four per pixel in row-major order.
pub ghost struct ImageModel {
    pub width: nat,
    pub height: nat,
    pub data: Seq<u8>,
}

impl ImageModel {
    pub open spec fn pixel_count(self) -> int {
        (self.width * self.height) as int
    }

    /// The data holds exactly four bytes for each of `width * height`
    /// pixels.
    pub open spec fn wf(self) -> bool {
        self.data.len() == 4 * self.pixel_count()
    }

    /// The byte of channel `c` (0 red, 1 green, 2 blue, 3 alpha) of the
    /// pixel at column `x`, row `y`.
    pub open spec fn channel(self, x: int, y: int, c: int) -> u8 {
        self.data[4 * (y * self.width + x) + c]
    }
}

/// A decoded RGBA bitmap with fixed width and height.
#[derive(Debug)]
pub struct RasterImage {
    width: u32,
    height: u32,
    data: Vec<u8>,
}

impl View for RasterImage {
    type V = ImageModel;

    closed spec fn view(&self) -> ImageModel {
        ImageModel { width: self.width as nat, height: self.height as nat, data: self.data@ }
    }
}

impl RasterImage {
    /// Every image holds exactly four bytes per pixel; the checked
    /// constructors below make this a type invariant.
    #[verifier::type_invariant]
    pub open spec fn wf(self) -> bool {
        self@.wf()
    }

    /// Builds an image from raw RGBA bytes; rejects data whose length does
    /// not match the dimensions.
    pub fn from_raw(width: u32, height: u32, data: Vec<u8>) -> (r: Option<RasterImage>)
        ensures
            match r {
                Some(img) => img.wf() && img@ == (ImageModel {
                    width: width as nat,
                    height: height as nat,
                    data: data@,
                }),
                None => data@.len() != 4 * ((width as nat) * (height as nat)),
            },
    {
        proof {
            assert((width as int) * (height as int) < 0x1_0000_0000_0000_0000)
                by (nonlinear_arith)
                requires
                    (width as int) < 0x1_0000_0000 && (height as int) < 0x1_0000_0000,
            ;
        }
        let pixels: u128 = (width as u128) * (height as u128);
        assert(pixels < 0x1_0000_0000_0000_0000);
        let expected: u128 = 4 * pixels;
        if data.len() as u128 == expected {
            Some(RasterImage { width, height, data })
        } else {
            None
        }
    }

    pub fn width(&self) -> (r: u32)
        ensures
            r as nat == self@.width,
    {
        self.width
    }

    pub fn height(&self) -> (r: u32)
        ensures
            r as nat == self@.height,
    {
        self.height
    }

    /// Read-only access to the raw RGBA bytes.
    pub fn data(&self) -> (r: &Vec<u8>)
        ensures
            r@ == self@.data,
    {
        &self.data
    }

    /// A pixel-identical copy of the image.
    pub fn clone_image(&self) -> (r: RasterImage)
        ensures
            r@ == self@,
    {
        let data = self.data.clone();
        proof {
            use_type_invariant(self);
            assert forall|i: int| 0 <= i < self.data@.len() implies data@[i]
                == self.data@[i] by {
                assert(cloned::<u8>(self.data@[i], data@[i]));
            }
            assert(data@ =~= self.data@);
        }
        RasterImage { width: self.width, height: self.height, data }
    }
}

} // verus!
