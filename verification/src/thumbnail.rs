//! Small pictures of the images, for the picker window.

use vstd::prelude::*;

verus! {

/// Whether `pixels` holds four bytes (red, green, blue, alpha) for every point of a
/// picture of `width` by `height` points.
pub open spec fn fits(width: u32, height: u32, pixels: Seq<u8>) -> bool {
    pixels.len() == width as int * height as int * 4
}

/// A decoded picture: its size in points and its points row by row, four bytes each.
#[derive(Debug)]
pub struct Thumbnail {
    width: u32,
    height: u32,
    pixels: Vec<u8>,
}

/// A `Thumbnail` as plain values.
pub struct ThumbnailView {
    pub width: u32,
    pub height: u32,
    pub pixels: Seq<u8>,
}

impl View for Thumbnail {
    type V = ThumbnailView;

    closed spec fn view(&self) -> ThumbnailView {
        ThumbnailView { width: self.width, height: self.height, pixels: self.pixels@ }
    }
}

impl Thumbnail {
    #[verifier::type_invariant]
    spec fn inv(&self) -> bool {
        fits(self.width, self.height, self.pixels@)
    }

    /// The picture of `width` by `height` points with the bytes `pixels`; none where
    /// the bytes are not four for every point.
    pub fn from_pixels(width: u32, height: u32, pixels: Vec<u8>) -> (picture: Option<Thumbnail>)
        ensures
            match picture {
                Some(picture) => fits(width, height, pixels@) && picture@ == (ThumbnailView {
                    width,
                    height,
                    pixels: pixels@,
                }),
                None => !fits(width, height, pixels@),
            },
    {
        assert(width as int * height as int <= 0xFFFF_FFFF * 0xFFFF_FFFF) by (nonlinear_arith)
            requires
                0 <= width <= 0xFFFF_FFFF,
                0 <= height <= 0xFFFF_FFFF,
        ;
        let points: u64 = width as u64 * height as u64;
        let count: u64 = pixels.len() as u64;
        if points > 0x3FFF_FFFF_FFFF_FFFF {
            assert(count < points * 4);
            return None;
        }
        if count != points * 4 {
            return None;
        }
        Some(Thumbnail { width, height, pixels })
    }

    /// The number of points in a row.
    pub fn width(&self) -> (width: u32)
        ensures
            width == self@.width,
    {
        self.width
    }

    /// The number of rows.
    pub fn height(&self) -> (height: u32)
        ensures
            height == self@.height,
    {
        self.height
    }

    /// The bytes of the points: always four for every point.
    pub fn pixels(&self) -> (pixels: &Vec<u8>)
        ensures
            pixels@ == self@.pixels,
            fits(self@.width, self@.height, pixels@),
    {
        proof {
            use_type_invariant(self);
        }
        &self.pixels
    }
}

/// What `image::load_from_memory` makes of the bytes of an image file, turned into
/// points of red, green, blue and alpha by `to_rgba8`: the width, the height and the
/// bytes of the points; none where the bytes are no image that the decoder knows.
/// Nothing is claimed of what comes back.
#[verifier::external_body]
fn decode_rgba(bytes: &[u8]) -> (decoded: Option<(u32, u32, Vec<u8>)>) {
    match image::load_from_memory(bytes) {
        Ok(picture) => {
            let points = picture.to_rgba8();
            Some((points.width(), points.height(), points.into_raw()))
        },
        Err(_) => None,
    }
}

/// Decodes the bytes of an image file. A picture that comes back has four bytes for
/// every point, whatever the decoder said.
pub fn load_thumbnail(bytes: &[u8]) -> (picture: Option<Thumbnail>)
    ensures
        picture matches Some(picture) ==> fits(
            picture@.width,
            picture@.height,
            picture@.pixels,
        ),
{
    match decode_rgba(bytes) {
        Some((width, height, pixels)) => Thumbnail::from_pixels(width, height, pixels),
        None => None,
    }
}

} // verus!
