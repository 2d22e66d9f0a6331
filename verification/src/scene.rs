//! The scene: which object a ray meets first, and how much light comes
//! back along a ray.
use crate::light::AmbientLight;
use crate::object::{
    Direction, Intersect, Intersection, Object, Radiance, Ray, ScatteredRay, Shade,
};
use vstd::prelude::*;

verus! {

/// How many times a path may scatter before it is cut off.
pub const MAX_RECURSION_DEPTH: u8 = 8;

/// `found` is the choice among `hits`: the hit with the smallest distance
/// and its position, the last of them where several are equally near; or
/// nothing where nothing was hit.
pub open spec fn nearest<S>(
    hits: Seq<Option<Intersection<S>>>,
    found: Option<(usize, Intersection<S>)>,
) -> bool {
    match found {
        None => forall|i: int| 0 <= i < hits.len() ==> #[trigger] hits[i] is None,
        Some((at, hit)) => {
            &&& at < hits.len()
            &&& hits[at as int] == Some(hit)
            &&& forall|j: int|
                0 <= j < hits.len() ==> (#[trigger] hits[j] matches Some(other) ==> hit.key()
                    <= other.key() && (j > at ==> hit.key() < other.key()))
        },
    }
}

/// `out` is the sum of `parts`, added up from the first to the last; no
/// parts add up to black.
pub open spec fn sums<C: Radiance>(parts: Seq<C>, out: C) -> bool
    decreases parts.len(),
{
    if parts.len() == 0 {
        call_ensures(C::black, (), out)
    } else if parts.len() == 1 {
        out == parts[0]
    } else {
        exists|before: C|
            sums(parts.drop_last(), before) && #[trigger] call_ensures(
                C::plus,
                (before, parts.last()),
                out,
            )
    }
}

proof fn lemma_sums_push<C: Radiance>(parts: Seq<C>, so_far: C, part: C, total: C)
    requires
        parts.len() > 0,
        sums(parts, so_far),
        call_ensures(C::plus, (so_far, part), total),
    ensures
        sums(parts.push(part), total),
{
    let longer = parts.push(part);
    assert(longer.drop_last() =~= parts);
    assert(call_ensures(C::plus, (so_far, longer.last()), total));
}

/// Picks the nearest of the hits that the objects of a scene reported,
/// each standing at its object's position.
pub fn closest<S>(hits: Vec<Option<Intersection<S>>>) -> (found: Option<(usize, Intersection<S>)>)
    ensures
        nearest(hits@, found),
{
    let mut rest = hits;
    let mut best: Option<(usize, Intersection<S>)> = None;
    while rest.len() > 0
        invariant
            rest@.len() <= hits@.len(),
            rest@ == hits@.take(rest@.len() as int),
            match best {
                None => forall|i: int| rest@.len() <= i < hits@.len() ==> #[trigger] hits@[i] is None,
                Some((at, hit)) => {
                    &&& rest@.len() <= at < hits@.len()
                    &&& hits@[at as int] == Some(hit)
                    &&& forall|j: int|
                        rest@.len() <= j < hits@.len() ==> (#[trigger] hits@[j] matches Some(
                            other,
                        ) ==> hit.key() <= other.key() && (j > at ==> hit.key() < other.key()))
                },
            },
        decreases rest@.len(),
    {
        let i: usize = rest.len() - 1;
        let last = rest.pop();
        assert(last == Some(hits@[i as int]));
        if let Some(Some(hit)) = last {
            let nearer: bool = match &best {
                None => true,
                Some((_, other)) => hit.t() < other.t(),
            };
            if nearer {
                best = Some((i, hit));
            }
        }
    }
    best
}

/// The objects of a scene and the light around them.
pub struct Scene<O, C> {
    pub objs: Vec<O>,
    pub ambient_light: AmbientLight<C>,
}

impl<O: Object> Scene<O, O::Color> where O::Line: Direction + Copy, O::Color: Radiance {
    /// A scene of the given objects under the given light.
    pub fn new(objs: Vec<O>, ambient_light: AmbientLight<O::Color>) -> (scene: Self)
        ensures
            scene.objs == objs,
            scene.ambient_light == ambient_light,
    {
        Scene { objs, ambient_light }
    }

    /// `hits` is what the objects answer to `ray`, object by object.
    pub open spec fn meets(
        &self,
        ray: &Ray<O::Line>,
        hits: Seq<Option<Intersection<O::Surface>>>,
    ) -> bool {
        &&& hits.len() == self.objs@.len()
        &&& forall|i: int|
            0 <= i < hits.len() ==> call_ensures(
                O::intersect,
                (&self.objs@[i], ray),
                #[trigger] hits[i],
            )
    }

    /// `found` is the first thing that `ray` meets in the scene.
    pub open spec fn finds(
        &self,
        ray: &Ray<O::Line>,
        found: Option<(usize, Intersection<O::Surface>)>,
    ) -> bool {
        exists|hits: Seq<Option<Intersection<O::Surface>>>|
            self.meets(ray, hits) && nearest(hits, found)
    }

    /// The object that `ray` meets first, by its position in the scene,
    /// and where it meets it.
    pub fn first_intersect(&self, ray: &Ray<O::Line>) -> (found: Option<
        (usize, Intersection<O::Surface>),
    >)
        ensures
            self.finds(ray, found),
            found matches Some((at, _)) ==> at < self.objs@.len(),
    {
        let mut hits: Vec<Option<Intersection<O::Surface>>> = Vec::new();
        let mut i: usize = 0;
        while i < self.objs.len()
            invariant
                i <= self.objs@.len(),
                hits@.len() == i,
                forall|k: int|
                    0 <= k < i ==> call_ensures(
                        O::intersect,
                        (&self.objs@[k], ray),
                        #[trigger] hits@[k],
                    ),
            decreases self.objs@.len() - i,
        {
            let hit = self.objs[i].intersect(ray);
            hits.push(hit);
            i = i + 1;
        }
        let ghost answers = hits@;
        let found = closest(hits);
        assert(self.meets(ray, answers));
        found
    }

    /// `out` is light that may come back along `ray` after the path has
    /// scattered `depth` times.
    ///
    /// Beyond the depth limit, and where the ray meets nothing, that is
    /// the ambient light in the ray's direction. Otherwise the object that
    /// is met first scatters the light, and `out` is the sum over what it
    /// gave: an absorbed part as it is, a part that goes on as the light
    /// that comes back along its ray, one scattering deeper, times its
    /// attenuation.
    pub open spec fn traces(&self, ray: &Ray<O::Line>, depth: u8, out: O::Color) -> bool
        decreases MAX_RECURSION_DEPTH + 1 - depth, 3int,
    {
        if depth > MAX_RECURSION_DEPTH {
            self.ambient_light.shines(&ray.line, out)
        } else {
            exists|found: Option<(usize, Intersection<O::Surface>)>|
                self.finds(ray, found) && match found {
                    None => self.ambient_light.shines(&ray.line, out),
                    Some((at, hit)) => exists|
                        rays: Vec<ScatteredRay<O::Color, O::Line>>,
                        parts: Seq<O::Color>,
                    |
                        {
                            &&& #[trigger] call_ensures(
                                O::scatter,
                                (&self.objs@[at as int], &hit, ray),
                                rays,
                            )
                            &&& self.gathers(rays@, ray.inside, depth, parts)
                            &&& #[trigger] sums(parts, out)
                        },
                }
        }
    }

    /// `parts` holds, for each of `rays`, the light that it contributes
    /// to a path that has scattered `depth` times, the last time off a
    /// ray that ran inside a solid or not.
    pub open spec fn gathers(
        &self,
        rays: Seq<ScatteredRay<O::Color, O::Line>>,
        inside: bool,
        depth: u8,
        parts: Seq<O::Color>,
    ) -> bool
        decreases MAX_RECURSION_DEPTH + 1 - depth, 2int,
    {
        &&& parts.len() == rays.len()
        &&& forall|k: int|
            0 <= k < rays.len() ==> self.contributes(#[trigger] rays[k], inside, depth, parts[k])
    }

    /// `part` is what one scattered ray contributes to a path that has
    /// scattered `depth` times, the last time off a ray that ran inside a
    /// solid or not: its colour where the light was absorbed, else what
    /// comes back along its ray. That ray runs where the ray before it
    /// ran, unless it was refracted.
    pub open spec fn contributes(
        &self,
        scattered: ScatteredRay<O::Color, O::Line>,
        inside: bool,
        depth: u8,
        part: O::Color,
    ) -> bool
        decreases MAX_RECURSION_DEPTH + 1 - depth, 1int,
    {
        match scattered {
            ScatteredRay::Absorbed { color } => part == color,
            ScatteredRay::Scattered { attenuation, ray } => self.brings_back(
                attenuation,
                Ray { line: ray, inside },
                depth,
                part,
            ),
            ScatteredRay::Refracted { attenuation, ray } => self.brings_back(
                attenuation,
                Ray { line: ray, inside: !inside },
                depth,
                part,
            ),
        }
    }

    /// `part` is light that comes back along `next`, one scattering
    /// deeper than `depth`, times `attenuation`.
    pub open spec fn brings_back(
        &self,
        attenuation: O::Color,
        next: Ray<O::Line>,
        depth: u8,
        part: O::Color,
    ) -> bool
        decreases MAX_RECURSION_DEPTH + 1 - depth, 0int,
    {
        depth <= MAX_RECURSION_DEPTH && exists|back: O::Color|
            self.traces(&next, (depth + 1) as u8, back) && #[trigger] call_ensures(
                <O::Color as Radiance>::times,
                (attenuation, back),
                part,
            )
    }

    proof fn lemma_gathers_push(
        &self,
        rays: Seq<ScatteredRay<O::Color, O::Line>>,
        inside: bool,
        depth: u8,
        parts: Seq<O::Color>,
        next: ScatteredRay<O::Color, O::Line>,
        part: O::Color,
    )
        requires
            self.gathers(rays, inside, depth, parts),
            self.contributes(next, inside, depth, part),
        ensures
            self.gathers(rays.push(next), inside, depth, parts.push(part)),
    {
        assert forall|k: int| 0 <= k < rays.len() + 1 implies self.contributes(
            #[trigger] rays.push(next)[k],
            inside,
            depth,
            parts.push(part)[k],
        ) by {
            if k < rays.len() {
                assert(rays.push(next)[k] == rays[k]);
            }
        }
    }

    fn gather(&self, scattered: &ScatteredRay<O::Color, O::Line>, inside: bool, depth: u8) -> (part:
        O::Color)
        requires
            depth <= MAX_RECURSION_DEPTH,
        ensures
            self.contributes(*scattered, inside, depth, part),
        decreases MAX_RECURSION_DEPTH + 1 - depth, 0int,
    {
        match scattered {
            ScatteredRay::Absorbed { color } => *color,
            ScatteredRay::Scattered { attenuation, ray } => {
                let next = Ray { line: *ray, inside };
                let back = self.trace(&next, depth + 1);
                (*attenuation).times(back)
            },
            ScatteredRay::Refracted { attenuation, ray } => {
                let next = Ray { line: *ray, inside: !inside };
                let back = self.trace(&next, depth + 1);
                (*attenuation).times(back)
            },
        }
    }

    /// The light that comes back along `ray`, for a path that has
    /// scattered `depth` times already.
    pub fn trace(&self, ray: &Ray<O::Line>, depth: u8) -> (out: O::Color)
        ensures
            self.traces(ray, depth, out),
            depth > MAX_RECURSION_DEPTH ==> self.ambient_light.shines(&ray.line, out),
            self.objs@.len() == 0 ==> self.ambient_light.shines(&ray.line, out),
        decreases MAX_RECURSION_DEPTH + 1 - depth, 1int,
    {
        if depth > MAX_RECURSION_DEPTH {
            return self.ambient_light.get_color(&ray.line);
        }
        let found = self.first_intersect(ray);
        match found {
            None => self.ambient_light.get_color(&ray.line),
            Some((at, hit)) => {
                let rays = self.objs[at].scatter(&hit, ray);
                let mut sum: Option<O::Color> = None;
                let ghost mut parts: Seq<O::Color> = Seq::empty();
                let mut k: usize = 0;
                while k < rays.len()
                    invariant
                        depth <= MAX_RECURSION_DEPTH,
                        k <= rays@.len(),
                        self.gathers(rays@.take(k as int), ray.inside, depth, parts),
                        k == 0 ==> sum is None,
                        k > 0 ==> (sum matches Some(so_far) && sums(parts, so_far)),
                    decreases rays@.len() - k,
                {
                    let part = self.gather(&rays[k], ray.inside, depth);
                    let total = match sum {
                        None => part,
                        Some(so_far) => so_far.plus(part),
                    };
                    proof {
                        if k > 0 {
                            lemma_sums_push(parts, sum.unwrap(), part, total);
                        }
                        self.lemma_gathers_push(
                            rays@.take(k as int),
                            ray.inside,
                            depth,
                            parts,
                            rays@[k as int],
                            part,
                        );
                        assert(rays@.take(k + 1) =~= rays@.take(k as int).push(rays@[k as int]));
                        parts = parts.push(part);
                    }
                    sum = Some(total);
                    k = k + 1;
                }
                assert(rays@.take(k as int) =~= rays@);
                let out = match sum {
                    None => <O::Color as Radiance>::black(),
                    Some(total) => total,
                };
                assert(sums(parts, out));
                out
            },
        }
    }

    /// Beyond the depth limit the light along a ray is the ambient light
    /// in the ray's direction, and nothing else.
    pub proof fn lemma_trace_beyond_depth(&self, ray: &Ray<O::Line>, depth: u8, out: O::Color)
        requires
            depth > MAX_RECURSION_DEPTH,
        ensures
            self.traces(ray, depth, out) <==> self.ambient_light.shines(&ray.line, out),
    {
    }

    /// Beyond the depth limit the objects of a scene do not matter: two
    /// scenes with the same ambient light return the same light.
    pub proof fn lemma_trace_beyond_depth_ignores_objects(
        &self,
        other: &Self,
        ray: &Ray<O::Line>,
        depth: u8,
        out: O::Color,
    )
        requires
            depth > MAX_RECURSION_DEPTH,
            self.ambient_light == other.ambient_light,
        ensures
            self.traces(ray, depth, out) <==> other.traces(ray, depth, out),
    {
    }

    /// In a scene without objects a ray meets nothing.
    pub proof fn lemma_empty_scene_finds_nothing(
        &self,
        ray: &Ray<O::Line>,
        found: Option<(usize, Intersection<O::Surface>)>,
    )
        requires
            self.objs@.len() == 0,
        ensures
            self.finds(ray, found) <==> found is None,
    {
        let nothing = Seq::<Option<Intersection<O::Surface>>>::empty();
        assert(self.meets(ray, nothing));
        assert(nearest(nothing, None));
    }

    /// In a scene without objects the light along a ray is the ambient
    /// light in the ray's direction, at every depth.
    pub proof fn lemma_trace_empty_scene(&self, ray: &Ray<O::Line>, depth: u8, out: O::Color)
        requires
            self.objs@.len() == 0,
        ensures
            self.traces(ray, depth, out) <==> self.ambient_light.shines(&ray.line, out),
    {
        if depth <= MAX_RECURSION_DEPTH {
            self.lemma_empty_scene_finds_nothing(ray, None);
            if self.traces(ray, depth, out) {
                let found = choose|found: Option<(usize, Intersection<O::Surface>)>|
                    self.finds(ray, found) && match found {
                        None => self.ambient_light.shines(&ray.line, out),
                        Some((at, hit)) => exists|
                            rays: Vec<ScatteredRay<O::Color, O::Line>>,
                            parts: Seq<O::Color>,
                        |
                            {
                                &&& #[trigger] call_ensures(
                                    O::scatter,
                                    (&self.objs@[at as int], &hit, ray),
                                    rays,
                                )
                                &&& self.gathers(rays@, ray.inside, depth, parts)
                                &&& #[trigger] sums(parts, out)
                            },
                    };
                self.lemma_empty_scene_finds_nothing(ray, found);
            }
        }
    }
}

/// The choice among the hits is settled by the hits: there are no two
/// answers to one question.
pub proof fn lemma_nearest_unique<S>(
    hits: Seq<Option<Intersection<S>>>,
    first: Option<(usize, Intersection<S>)>,
    second: Option<(usize, Intersection<S>)>,
)
    requires
        nearest(hits, first),
        nearest(hits, second),
    ensures
        first == second,
{
    match (first, second) {
        (Some((a, _)), Some((b, _))) => {
            assert(hits[a as int] is Some);
            assert(hits[b as int] is Some);
        },
        (Some((a, _)), None) => {
            assert(hits[a as int] is Some);
        },
        (None, Some((b, _))) => {
            assert(hits[b as int] is Some);
        },
        (None, None) => {},
    }
}

/// The order of the objects does not matter to how near the nearest hit
/// is: two rows that hold the same hits, each in its own order, give
/// nearest hits at the same distance, also where several are equally
/// near.
pub proof fn lemma_nearest_distance_ignores_order<S>(
    hits: Seq<Option<Intersection<S>>>,
    shuffled: Seq<Option<Intersection<S>>>,
    first: (usize, Intersection<S>),
    second: (usize, Intersection<S>),
)
    requires
        nearest(hits, Some(first)),
        nearest(shuffled, Some(second)),
        forall|i: int| 0 <= i < hits.len() ==> shuffled.contains(#[trigger] hits[i]),
        forall|j: int| 0 <= j < shuffled.len() ==> hits.contains(#[trigger] shuffled[j]),
    ensures
        first.1.key() == second.1.key(),
{
    assert(shuffled.contains(hits[first.0 as int]));
    let there = choose|j: int| 0 <= j < shuffled.len() && shuffled[j] == hits[first.0 as int];
    assert(shuffled[there] == Some(first.1));
    assert(hits.contains(shuffled[second.0 as int]));
    let here = choose|i: int| 0 <= i < hits.len() && hits[i] == shuffled[second.0 as int];
    assert(hits[here] == Some(second.1));
}

/// Whether anything is found does not depend on the order of the objects
/// either: two rows that hold the same hits find something or nothing
/// alike.
pub proof fn lemma_nearest_found_ignores_order<S>(
    hits: Seq<Option<Intersection<S>>>,
    shuffled: Seq<Option<Intersection<S>>>,
    first: Option<(usize, Intersection<S>)>,
    second: Option<(usize, Intersection<S>)>,
)
    requires
        nearest(hits, first),
        nearest(shuffled, second),
        forall|i: int| 0 <= i < hits.len() ==> shuffled.contains(#[trigger] hits[i]),
        forall|j: int| 0 <= j < shuffled.len() ==> hits.contains(#[trigger] shuffled[j]),
    ensures
        first is Some <==> second is Some,
{
    if let Some((at, hit)) = first {
        assert(shuffled.contains(hits[at as int]));
        let there = choose|j: int| 0 <= j < shuffled.len() && shuffled[j] == hits[at as int];
        assert(shuffled[there] is Some);
    }
    if let Some((at, hit)) = second {
        assert(hits.contains(shuffled[at as int]));
        let here = choose|i: int| 0 <= i < hits.len() && hits[i] == shuffled[at as int];
        assert(hits[here] is Some);
    }
}

/// Where no two hits are equally near, the order of the objects does not
/// matter to which hit is found: two rows that hold the same hits, each
/// in its own order, give the same nearest hit.
pub proof fn lemma_nearest_ignores_order<S>(
    hits: Seq<Option<Intersection<S>>>,
    shuffled: Seq<Option<Intersection<S>>>,
    first: (usize, Intersection<S>),
    second: (usize, Intersection<S>),
)
    requires
        nearest(hits, Some(first)),
        nearest(shuffled, Some(second)),
        forall|i: int| 0 <= i < hits.len() ==> shuffled.contains(#[trigger] hits[i]),
        forall|j: int| 0 <= j < shuffled.len() ==> hits.contains(#[trigger] shuffled[j]),
        forall|i: int, j: int|
            0 <= i < hits.len() && 0 <= j < hits.len() && i != j ==> (#[trigger] hits[i] matches Some(
                a,
            ) ==> (#[trigger] hits[j] matches Some(b) ==> a.key() != b.key())),
    ensures
        first.1 == second.1,
{
    lemma_nearest_distance_ignores_order(hits, shuffled, first, second);
    assert(hits.contains(shuffled[second.0 as int]));
    let here = choose|i: int| 0 <= i < hits.len() && hits[i] == shuffled[second.0 as int];
    assert(hits[here] == Some(second.1));
    if here != first.0 {
        assert(hits[here] is Some && hits[first.0 as int] is Some);
    }
}

/// Light that is absorbed comes back as it is: where a surface gives one
/// absorbed part and nothing else, the sum is that part's colour.
pub proof fn lemma_sum_of_one<C: Radiance>(part: C, out: C)
    ensures
        sums(seq![part], out) <==> out == part,
{
}

} // verus!
