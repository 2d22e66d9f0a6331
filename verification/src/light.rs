//! The light that reaches a ray from beyond the scene.
use crate::image::{Image, ImageError, Resolution};
use crate::object::Direction;
use vstd::prelude::*;

verus! {

/// The width and the height of the sky that `AmbientLight::new` paints.
pub const SKY_SIZE: usize = 1024;

/// The surroundings of a scene: a panorama that a line is looked up in by
/// its direction. A panorama of a single pixel is a constant light.
pub struct AmbientLight<C> {
    image: Image<C>,
}

impl<C> AmbientLight<C> {
    #[verifier::type_invariant]
    spec fn lit(&self) -> bool {
        self.image.well_formed() && self.image@.len() >= 1
    }

    /// The panorama.
    pub closed spec fn panorama(&self) -> Image<C> {
        self.image
    }

    /// `out` is the light that the panorama holds where `line` looks.
    pub open spec fn shines<L: Direction>(&self, line: &L, out: C) -> bool {
        exists|at: (usize, usize)|
            call_ensures(L::texel, (line, &self.panorama().resolution), at) && out
                == self.panorama()@[self.panorama().resolution.index_of(at.0 as int, at.1 as int)]
    }

    /// The surroundings that `image` shows. It is an error where the
    /// image is empty or does not hold as many pixels as its resolution
    /// says.
    pub fn from_image(image: Image<C>) -> (light: Result<AmbientLight<C>, ImageError>)
        ensures
            light.is_ok() <==> image.well_formed() && image@.len() >= 1,
            light matches Ok(l) ==> l.panorama() == image,
    {
        let held: usize = image.data.len();
        match image.resolution.width.checked_mul(image.resolution.height) {
            Some(count) => {
                if held == count && held >= 1 {
                    Ok(AmbientLight { image })
                } else {
                    Err(ImageError {  })
                }
            },
            None => Err(ImageError {  }),
        }
    }

    /// `image` is a painted sky: a square panorama in which each pixel
    /// has the colour that `shade` gave for the pixel's row and the number
    /// of rows.
    pub open spec fn painted<F: Fn(usize, usize) -> C>(shade: &F, image: Image<C>) -> bool {
        &&& image.well_formed()
        &&& image.resolution == (Resolution { width: SKY_SIZE, height: SKY_SIZE })
        &&& forall|i: int|
            0 <= i < image@.len() ==> call_ensures(
                shade,
                (image.resolution.row_of(i) as usize, SKY_SIZE),
                #[trigger] image@[i],
            )
    }

    /// A sky that changes with height only: `shade` is asked for the
    /// colour of each pixel, with the pixel's row and the number of rows.
    pub fn new<F: Fn(usize, usize) -> C>(shade: &F) -> (light: AmbientLight<C>)
        requires
            forall|h: usize| h < SKY_SIZE ==> call_requires(shade, (h, SKY_SIZE)),
        ensures
            Self::painted(shade, light.panorama()),
    {
        let resolution = Resolution { width: SKY_SIZE, height: SKY_SIZE };
        let count: usize = SKY_SIZE * SKY_SIZE;
        let mut data: Vec<C> = Vec::new();
        let mut i: usize = 0;
        while i < count
            invariant
                i <= count,
                count == SKY_SIZE * SKY_SIZE,
                resolution == (Resolution { width: SKY_SIZE, height: SKY_SIZE }),
                data@.len() == i,
                forall|h: usize| h < SKY_SIZE ==> call_requires(shade, (h, SKY_SIZE)),
                forall|k: int|
                    0 <= k < i ==> call_ensures(
                        shade,
                        (resolution.row_of(k) as usize, SKY_SIZE),
                        #[trigger] data@[k],
                    ),
            decreases count - i,
        {
            let (h, _w) = resolution.get_height_width(i);
            let color = shade(h, SKY_SIZE);
            data.push(color);
            i = i + 1;
        }
        AmbientLight { image: Image { resolution, data } }
    }

    /// The same light from every direction.
    pub fn constant(color: C) -> (light: AmbientLight<C>) where C: Copy
        ensures
            light.panorama().resolution == (Resolution { width: 1, height: 1 }),
            light.panorama()@ == seq![color],
    {
        let image = Image::new(Resolution::new(1, 1), color);
        assert(image@ =~= seq![color]);
        AmbientLight { image }
    }

    /// The light that comes from the surroundings along `line`.
    pub fn get_color<L: Direction>(&self, line: &L) -> (color: C) where C: Copy
        ensures
            self.shines(line, color),
    {
        proof {
            use_type_invariant(self);
        }
        let at = line.texel(&self.image.resolution);
        *self.image.get_at(at.0, at.1)
    }

    /// A panorama of a single pixel gives that pixel's light in every
    /// direction.
    pub proof fn lemma_single_pixel_shines_alike<L: Direction>(&self, line: &L, out: C)
        requires
            self.panorama().resolution.width == 1,
            self.panorama().resolution.height == 1,
            self.shines(line, out),
        ensures
            out == self.panorama()@[0],
    {
    }
}

} // verus!
