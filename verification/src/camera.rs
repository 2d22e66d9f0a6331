//! The camera: how a pixel gathers light from the scene.
use crate::image::{Image, Resolution};
use crate::object::{Direction, Object, Radiance, Ray};
use crate::scene::Scene;
use vstd::prelude::*;

verus! {

/// The optics of a camera: where a sample of a pixel looks.
pub trait Lens<L> {
    /// A line from the lens through the pixel in row `h` and column `w` of
    /// an image of the given resolution. Each call may place the line
    /// elsewhere within the pixel and on the lens.
    fn primary_ray(&self, h: usize, w: usize, resolution: &Resolution) -> L;
}

/// `out` is the mean of `samples`: their sum, added up from black in
/// their order, over their number.
pub open spec fn averages<C: Radiance>(samples: Seq<C>, out: C) -> bool {
    exists|running: Seq<C>|
        {
            &&& running.len() == samples.len() + 1
            &&& call_ensures(C::black, (), running[0])
            &&& forall|i: int|
                1 <= i < running.len() ==> call_ensures(
                    C::plus,
                    (running[i - 1], samples[i - 1]),
                    #[trigger] running[i],
                )
            &&& #[trigger] call_ensures(C::over, (running.last(), samples.len() as u32), out)
        }
}

/// A camera that looks at a scene through a lens.
pub struct Camera<L> {
    pub lens: L,
}

impl<L> Camera<L> {
    /// A camera with the given optics.
    pub fn new(lens: L) -> (camera: Self)
        ensures
            camera.lens == lens,
    {
        Camera { lens }
    }

    /// `sample` is light that one sample of the pixel in row `h` and
    /// column `w` may gather: what comes back along a primary ray through
    /// the pixel, which starts outside every solid and at depth zero, made
    /// safe to add up.
    pub open spec fn samples<O: Object>(
        &self,
        h: usize,
        w: usize,
        resolution: &Resolution,
        scene: &Scene<O, O::Color>,
        sample: O::Color,
    ) -> bool where L: Lens<O::Line>, O::Line: Direction + Copy, O::Color: Radiance {
        exists|line: O::Line, back: O::Color|
            {
                &&& #[trigger] call_ensures(L::primary_ray, (&self.lens, h, w, resolution), line)
                &&& scene.traces(&Ray { line, inside: false }, 0, back)
                &&& #[trigger] call_ensures(<O::Color as Radiance>::fix, (back,), sample)
            }
    }

    /// `out` is a colour that the pixel in row `h` and column `w` may get
    /// from `rays` samples: their mean, made safe to store.
    pub open spec fn captures<O: Object>(
        &self,
        h: usize,
        w: usize,
        resolution: &Resolution,
        scene: &Scene<O, O::Color>,
        rays: u32,
        out: O::Color,
    ) -> bool where L: Lens<O::Line>, O::Line: Direction + Copy, O::Color: Radiance {
        exists|samples: Seq<O::Color>, mean: O::Color|
            {
                &&& samples.len() == rays
                &&& forall|i: int|
                    0 <= i < samples.len() ==> self.samples(
                        h,
                        w,
                        resolution,
                        scene,
                        #[trigger] samples[i],
                    )
                &&& #[trigger] averages(samples, mean)
                &&& #[trigger] call_ensures(<O::Color as Radiance>::fix, (mean,), out)
            }
    }

    /// The colour of the pixel in row `h` and column `w`: the mean of the
    /// light that `rays` samples gather from the scene. Each sample, and
    /// then the mean, is made safe: a colour with a channel that is no
    /// number counts as black.
    pub fn capture_pixel<O: Object>(
        &self,
        h: usize,
        w: usize,
        resolution: &Resolution,
        scene: &Scene<O, O::Color>,
        rays: u32,
    ) -> (out: O::Color) where L: Lens<O::Line>, O::Line: Direction + Copy, O::Color: Radiance
        ensures
            self.captures(h, w, resolution, scene, rays, out),
    {
        let mut sum = <O::Color as Radiance>::black();
        let ghost mut samples: Seq<O::Color> = Seq::empty();
        let ghost mut running: Seq<O::Color> = seq![sum];
        let mut i: u32 = 0;
        while i < rays
            invariant
                i <= rays,
                samples.len() == i,
                running.len() == i + 1,
                running.last() == sum,
                call_ensures(<O::Color as Radiance>::black, (), running[0]),
                forall|k: int|
                    0 <= k < samples.len() ==> self.samples(
                        h,
                        w,
                        resolution,
                        scene,
                        #[trigger] samples[k],
                    ),
                forall|k: int|
                    1 <= k < running.len() ==> call_ensures(
                        <O::Color as Radiance>::plus,
                        (running[k - 1], samples[k - 1]),
                        #[trigger] running[k],
                    ),
            decreases rays - i,
        {
            let ray = Ray::primary(self.lens.primary_ray(h, w, resolution));
            let sample = scene.trace(&ray, 0).fix();
            assert(self.samples(h, w, resolution, scene, sample));
            sum = sum.plus(sample);
            proof {
                samples = samples.push(sample);
                running = running.push(sum);
            }
            i = i + 1;
        }
        let mean = sum.over(rays);
        assert(call_ensures(
            <O::Color as Radiance>::over,
            (running.last(), samples.len() as u32),
            mean,
        ));
        assert(averages(samples, mean));
        mean.fix()
    }

    /// `image` is a picture of the scene at the given resolution: pixel
    /// after pixel, the colour that the camera captures for the row and
    /// column that the resolution gives for the pixel's index.
    pub open spec fn pictures<O: Object>(
        &self,
        resolution: Resolution,
        scene: &Scene<O, O::Color>,
        rays: u32,
        image: Image<O::Color>,
    ) -> bool where L: Lens<O::Line>, O::Line: Direction + Copy, O::Color: Radiance {
        &&& image.well_formed()
        &&& image.resolution == resolution
        &&& forall|i: int|
            0 <= i < image@.len() ==> self.captures(
                resolution.row_of(i) as usize,
                resolution.column_of(i) as usize,
                &resolution,
                scene,
                rays,
                #[trigger] image@[i],
            )
    }

    /// Renders the scene, pixel after pixel.
    pub fn take_picture<O: Object>(
        &self,
        resolution: Resolution,
        scene: &Scene<O, O::Color>,
        rays: u32,
    ) -> (image: Image<O::Color>) where L: Lens<O::Line>, O::Line: Direction + Copy, O::Color: Radiance
        requires
            resolution.pixels() <= usize::MAX,
        ensures
            self.pictures(resolution, scene, rays, image),
    {
        let count: usize = resolution.width * resolution.height;
        let mut data: Vec<O::Color> = Vec::new();
        let mut i: usize = 0;
        while i < count
            invariant
                i <= count,
                count == resolution.pixels(),
                data@.len() == i,
                forall|k: int|
                    0 <= k < i ==> self.captures(
                        resolution.row_of(k) as usize,
                        resolution.column_of(k) as usize,
                        &resolution,
                        scene,
                        rays,
                        #[trigger] data@[k],
                    ),
            decreases count - i,
        {
            let (h, w) = resolution.get_height_width(i);
            let color = self.capture_pixel(h, w, &resolution, scene, rays);
            data.push(color);
            i = i + 1;
        }
        Image { resolution, data }
    }

    /// In a scene without objects a sample is the ambient light in the
    /// direction of its primary ray, made safe to add up.
    pub proof fn lemma_sample_of_empty_scene<O: Object>(
        &self,
        h: usize,
        w: usize,
        resolution: &Resolution,
        scene: &Scene<O, O::Color>,
        sample: O::Color,
    ) where L: Lens<O::Line>, O::Line: Direction + Copy, O::Color: Radiance
        requires
            scene.objs@.len() == 0,
        ensures
            self.samples(h, w, resolution, scene, sample) <==> exists|
                line: O::Line,
                back: O::Color,
            |
                {
                    &&& #[trigger] call_ensures(
                        L::primary_ray,
                        (&self.lens, h, w, resolution),
                        line,
                    )
                    &&& scene.ambient_light.shines(&line, back)
                    &&& #[trigger] call_ensures(<O::Color as Radiance>::fix, (back,), sample)
                },
    {
        assert forall|line: O::Line, back: O::Color|
            scene.traces(&Ray { line, inside: false }, 0, back) <==> scene.ambient_light.shines(
                &line,
                back,
            ) by {
            scene.lemma_trace_empty_scene(&Ray { line, inside: false }, 0, back);
        }
    }
}

} // verus!
