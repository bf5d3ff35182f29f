use vstd::prelude::*;

verus! {

/// What a flat image is to a contract: its pixels in row-major order, and
/// the height and width by which they can be laid out again as a grid.
pub struct FlatImageView {
    pub pixels: Seq<u8>,
    pub height: nat,
    pub width: nat,
}

impl FlatImageView {
    /// The pixels fill the grid exactly.
    pub open spec fn wf(self) -> bool {
        self.pixels.len() == self.height * self.width
    }
}

/// An image in a single row.
///
/// Contains height and width so it can be remapped into a 2d image. The
/// pixels are kept as the unscaled bytes of the source; their magnitude is
/// the intensity.
#[derive(Debug)]
pub struct FlatImage {
    bytes: Vec<u8>,
    height: usize,
    width: usize,
}

impl View for FlatImage {
    type V = FlatImageView;

    closed spec fn view(&self) -> FlatImageView {
        FlatImageView {
            pixels: self.bytes@,
            height: self.height as nat,
            width: self.width as nat,
        }
    }
}

impl FlatImage {
    #[verifier::type_invariant]
    spec fn filled(&self) -> bool {
        self.bytes@.len() == self.height * self.width
    }

    /// Builds an image of `height` rows and `width` columns from its pixels
    /// in row-major order. The caller hands over exactly `height * width`
    /// bytes.
    pub fn from_bytes(raw_bytes: &[u8], height: usize, width: usize) -> (image: Self)
        requires
            raw_bytes@.len() == height * width,
        ensures
            image@.pixels == raw_bytes@,
            image@.height == height,
            image@.width == width,
            image@.wf(),
    {
        Self { bytes: vstd::slice::slice_to_vec(raw_bytes), height, width }
    }

    /// The pixels, row after row.
    pub fn as_bytes(&self) -> (bytes: &[u8])
        ensures
            bytes@ == self@.pixels,
    {
        self.bytes.as_slice()
    }

    /// The number of rows.
    pub fn height(&self) -> (height: usize)
        ensures
            height == self@.height,
    {
        self.height
    }

    /// The number of columns.
    pub fn width(&self) -> (width: usize)
        ensures
            width == self@.width,
    {
        self.width
    }

    /// The number of pixels, which is the height times the width.
    pub fn pixel_count(&self) -> (count: usize)
        ensures
            count == self@.pixels.len(),
            count == self@.height * self@.width,
            self@.wf(),
    {
        proof {
            use_type_invariant(self);
        }
        self.bytes.len()
    }
}

} // verus!
