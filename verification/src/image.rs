//! Pixel addressing and the row-major image buffer.
use vstd::prelude::*;

verus! {

/// Width and height of an image, in pixels.
#[derive(Debug, Clone, Copy)]
pub struct Resolution {
    pub width: usize,
    pub height: usize,
}

/// An image could not be had: its source could not be read, or what it
/// holds is no whole image.
#[derive(Debug)]
pub struct ImageError {}

impl Resolution {
    /// The number of pixels of an image of this resolution.
    pub open spec fn pixels(self) -> int {
        self.width * self.height
    }

    /// The flat index that `get_index` yields for column `width` and row
    /// `height`: the row-major position, held to the last pixel.
    pub open spec fn index_of(self, width: int, height: int) -> int {
        if height * self.width + width <= self.pixels() - 1 {
            height * self.width + width
        } else {
            self.pixels() - 1
        }
    }

    /// The resolution of an image `width` pixels wide and `height` high.
    pub fn new(width: usize, height: usize) -> (r: Resolution)
        ensures
            r.width == width,
            r.height == height,
    {
        Resolution { width, height }
    }

    /// The row of the pixel with flat index `i`. The buffer holds the
    /// highest row first, so the rows count down as the index goes up.
    pub open spec fn row_of(self, i: int) -> int {
        self.height - 1 - i / (self.width as int)
    }

    /// The column of the pixel with flat index `i`.
    pub open spec fn column_of(self, i: int) -> int {
        i % (self.width as int)
    }

    /// Splits the flat index `i` of a pixel into its row and its column.
    pub fn get_height_width(&self, i: usize) -> (r: (usize, usize))
        requires
            i < self.pixels(),
        ensures
            r.0 == self.row_of(i as int),
            r.1 == self.column_of(i as int),
            r.0 < self.height,
            r.1 < self.width,
            i == (self.height - 1 - r.0) * self.width + r.1,
    {
        proof {
            assert(self.width > 0) by (nonlinear_arith)
                requires
                    i < self.width * self.height,
            ;
            vstd::arithmetic::div_mod::lemma_multiply_divide_lt(
                i as int,
                self.width as int,
                self.height as int,
            );
            vstd::arithmetic::div_mod::lemma_fundamental_div_mod(i as int, self.width as int);
            assert((self.width as int) * (i as int / self.width as int) == (i as int
                / self.width as int) * (self.width as int)) by (nonlinear_arith);
        }
        (self.height - 1 - i / self.width, i % self.width)
    }

    /// The flat index of column `width` in row `height`, held to the last
    /// pixel of the image where the position lies beyond it.
    pub fn get_index(&self, width: usize, height: usize) -> (r: usize)
        requires
            1 <= self.pixels() <= usize::MAX,
        ensures
            r == self.index_of(width as int, height as int),
            r < self.pixels(),
    {
        let last: usize = self.width * self.height - 1;
        let at: Option<usize> = match height.checked_mul(self.width) {
            Some(row) => row.checked_add(width),
            None => None,
        };
        match at {
            Some(at) => if at <= last {
                at
            } else {
                last
            },
            None => last,
        }
    }
}

/// A fixed-size two-dimensional buffer of pixels, stored row by row.
///
/// The pixel type is left to the caller: a linear colour while rendering,
/// an 8-bit colour once tone-mapped.
pub struct Image<P> {
    pub resolution: Resolution,
    pub data: Vec<P>,
}

impl<P> View for Image<P> {
    type V = Seq<P>;

    /// The pixels, row by row.
    open spec fn view(&self) -> Seq<P> {
        self.data@
    }
}

impl<P> Image<P> {
    /// The buffer holds exactly one pixel for each position of its
    /// resolution.
    pub open spec fn well_formed(&self) -> bool {
        self@.len() == self.resolution.pixels()
    }

    /// An image of the given resolution with every pixel set to `fill`.
    pub fn new(resolution: Resolution, fill: P) -> (image: Image<P>) where P: Copy
        requires
            resolution.pixels() <= usize::MAX,
        ensures
            image.well_formed(),
            image.resolution == resolution,
            forall|i: int| 0 <= i < image@.len() ==> image@[i] == fill,
    {
        let count: usize = resolution.width * resolution.height;
        let mut data: Vec<P> = Vec::new();
        let mut i: usize = 0;
        while i < count
            invariant
                i <= count,
                data@.len() == i,
                forall|k: int| 0 <= k < i ==> data@[k] == fill,
            decreases count - i,
        {
            data.push(fill);
            i = i + 1;
        }
        Image { resolution, data }
    }

    /// An image over pixels that were made elsewhere. It is an error
    /// where their number does not match the resolution.
    pub fn from_data(resolution: Resolution, data: Vec<P>) -> (image: Result<Image<P>, ImageError>)
        ensures
            image.is_ok() <==> data@.len() == resolution.pixels(),
            image matches Ok(img) ==> img.well_formed() && img.resolution == resolution && img@
                == data@,
    {
        let held: usize = data.len();
        match resolution.width.checked_mul(resolution.height) {
            Some(count) => {
                if held == count {
                    Ok(Image { resolution, data })
                } else {
                    Err(ImageError {  })
                }
            },
            None => Err(ImageError {  }),
        }
    }

    /// The pixels, row by row.
    pub fn get_data(&self) -> (data: &Vec<P>)
        ensures
            data@ == self@,
    {
        &self.data
    }

    /// The pixels, open to change. The resolution stays as it is, so a
    /// caller that changes their number leaves the image ill-formed.
    pub fn get_data_mut(&mut self) -> (data: &mut Vec<P>)
        ensures
            data@ == old(self)@,
            final(self)@ == final(data)@,
            final(self).resolution == old(self).resolution,
    {
        &mut self.data
    }

    /// The pixel at column `width` of row `height`; a position beyond the
    /// image yields the last pixel.
    pub fn get_at(&self, width: usize, height: usize) -> (pixel: &P)
        requires
            self.well_formed(),
            self@.len() >= 1,
        ensures
            *pixel == self@[self.resolution.index_of(width as int, height as int)],
    {
        let held: usize = self.data.len();
        assert(self.resolution.pixels() == held);
        let at: usize = self.resolution.get_index(width, height);
        &self.data[at]
    }
}

} // verus!
