//! Owned RGB pixel grids. Every pipeline stage consumes one image and
//! produces a new one; nothing is mutated in place.

use vstd::prelude::*;

verus! {

/// Largest width or height an image handled by the pipeline may have.
/// Together with `MAX_COORD` this keeps the rectifier's exact integer
/// arithmetic inside `i128`.
pub const MAX_DIM: usize = 16384;

/// One pixel, in RGB channel order.
#[derive(Clone, Copy, PartialEq, Eq, Structural, Debug)]
pub struct Rgb {
    pub r: u8,
    pub g: u8,
    pub b: u8,
}

/// The background colour written outside the warped source region.
pub open spec fn black() -> Rgb {
    Rgb { r: 0, g: 0, b: 0 }
}

/// An owned two-dimensional grid of RGB pixels, stored row by row.
#[derive(Debug, PartialEq, Eq)]
pub struct ImageRgb {
    pub width: usize,
    pub height: usize,
    pub rows: Vec<Vec<Rgb>>,
}

impl ImageRgb {
    /// The pixel grid as a mathematical sequence of rows.
    pub open spec fn pixels(self) -> Seq<Seq<Rgb>> {
        self.rows@.map_values(|row: Vec<Rgb>| row@)
    }

    /// A non-empty rectangular grid of the stated dimensions, within the
    /// pipeline's working-resolution bound.
    pub open spec fn wf(self) -> bool {
        &&& 1 <= self.width <= MAX_DIM
        &&& 1 <= self.height <= MAX_DIM
        &&& self.pixels().len() == self.height
        &&& forall|j: int| 0 <= j < self.height ==> #[trigger] self.pixels()[j].len() == self.width
    }

    /// Builds an image from rows already known to be rectangular.
    pub fn from_rows(width: usize, height: usize, rows: Vec<Vec<Rgb>>) -> (img: ImageRgb)
        requires
            1 <= width <= MAX_DIM,
            1 <= height <= MAX_DIM,
            rows@.len() == height,
            forall|j: int| 0 <= j < height ==> #[trigger] rows@[j]@.len() == width,
        ensures
            img.wf(),
            img.width == width,
            img.height == height,
            forall|j: int| 0 <= j < height ==> #[trigger] img.pixels()[j] == rows@[j]@,
    {
        let img = ImageRgb { width, height, rows };
        proof {
            assert(forall|j: int|
                0 <= j < height ==> #[trigger] img.pixels()[j] == img.rows@[j]@);
        }
        img
    }

    /// Builds an image from caller-supplied rows, accepting exactly the
    /// non-empty rectangular grids within the working-resolution bound.
    pub fn try_from_rows(rows: Vec<Vec<Rgb>>) -> (r: Option<ImageRgb>)
        ensures
            r is Some <==> rows_valid(rows@),
            match r {
                Some(img) => {
                    &&& img.wf()
                    &&& img.height == rows@.len()
                    &&& img.width == rows@[0]@.len()
                    &&& forall|j: int|
                        0 <= j < rows@.len() ==> #[trigger] img.pixels()[j] == rows@[j]@
                },
                None => true,
            },
    {
        let height = rows.len();
        if height < 1 || height > MAX_DIM {
            return None;
        }
        let width = rows[0].len();
        if width < 1 || width > MAX_DIM {
            return None;
        }
        let mut j: usize = 0;
        while j < height
            invariant
                j <= height,
                height == rows@.len(),
                width == rows@[0]@.len(),
                forall|k: int| 0 <= k < j ==> #[trigger] rows@[k]@.len() == width,
            decreases height - j,
        {
            if rows[j].len() != width {
                return None;
            }
            j += 1;
        }
        Some(ImageRgb::from_rows(width, height, rows))
    }

    /// Reads one pixel.
    pub fn pixel(&self, x: usize, y: usize) -> (p: Rgb)
        requires
            self.wf(),
            x < self.width,
            y < self.height,
        ensures
            p == self.pixels()[y as int][x as int],
    {
        proof {
            assert(self.pixels()[y as int] == self.rows@[y as int]@);
        }
        self.rows[y][x]
    }
}

/// The grids accepted by `try_from_rows`: non-empty, rectangular, and within
/// the working-resolution bound on both sides.
pub open spec fn rows_valid(rows: Seq<Vec<Rgb>>) -> bool {
    &&& 1 <= rows.len() <= MAX_DIM
    &&& 1 <= rows[0]@.len() <= MAX_DIM
    &&& forall|j: int| 0 <= j < rows.len() ==> #[trigger] rows[j]@.len() == rows[0]@.len()
}

} // verus!
