//! The scene aggregate: an ordered collection of primitives.

use crate::fixed::Fx;
use crate::hittable::hit::Hit;
use crate::hittable::sphere::{
    lemma_sphere_hit_blocked, lemma_sphere_hit_gone_when_shrunk,
    lemma_sphere_hit_kept_when_shrunk, lemma_sphere_hit_some_t, lemma_sphere_hit_unshrunk,
    sphere_hit_spec, Sphere,
};
use crate::hittable::traits::{prim_hit, Hittable, Primitive};
use crate::ray::Ray;
use std::sync::Arc;
use vstd::prelude::*;

verus! {

/// The scan state folded over the remaining primitives: a later, strictly
/// nearer hit wins over the current one.
pub open spec fn merge_hits(cur: Option<Hit>, later: Option<Hit>) -> Option<Hit> {
    match later {
        Some(h) => Some(h),
        None => cur,
    }
}

/// The nearest-hit scan: try each primitive in order against the open
/// interval `(min, max)`, and whenever one strikes, shrink the far bound
/// to that strike's distance for the primitives after it. Ties therefore
/// go to the earliest primitive, because the bound shrinks only on strict
/// improvement.
pub open spec fn scan_hits(objs: Seq<Primitive>, ray: Ray, min: int, max: int) -> Option<Hit>
    decreases objs.len(),
{
    if objs.len() == 0 {
        None
    } else {
        match prim_hit(objs[0], ray, min, max) {
            None => scan_hits(objs.drop_first(), ray, min, max),
            Some(h) => merge_hits(
                Some(h),
                scan_hits(objs.drop_first(), ray, min, h.distance@),
            ),
        }
    }
}

/// An ordered collection of primitives, queried for the nearest hit.
pub struct HittableList {
    pub objects: Vec<Primitive>,
}

impl HittableList {
    /// An empty scene.
    pub fn new() -> (r: HittableList)
        ensures
            r.objects@ =~= Seq::<Primitive>::empty(),
    {
        HittableList { objects: Vec::new() }
    }

    /// A scene over the given primitives, in their order.
    pub fn from(objects: Vec<Primitive>) -> (r: HittableList)
        ensures
            r.objects@ == objects@,
    {
        HittableList { objects }
    }

    /// Append a primitive at the end of the scan order.
    pub fn add(&mut self, object: Primitive)
        ensures
            final(self).objects@ == old(self).objects@.push(object),
    {
        self.objects.push(object);
    }

    /// Append a shared primitive at the end of the scan order.
    pub fn add_shared(&mut self, object: Arc<Primitive>)
        ensures
            final(self).objects@ == old(self).objects@.push(*object),
    {
        self.objects.push(*object);
    }

    /// Remove every primitive.
    pub fn clear(&mut self)
        ensures
            final(self).objects@ =~= Seq::<Primitive>::empty(),
    {
        self.objects.clear();
    }
}

impl Hittable for HittableList {
    open spec fn hit_spec(&self, ray: Ray, min: int, max: int) -> Option<Hit> {
        scan_hits(self.objects@, ray, min, max)
    }

    fn hit(&self, ray: &Ray, min: Fx, max: Fx) -> (r: Option<Hit>) {
        let mut closest = max;
        let mut out: Option<Hit> = None;
        let ghost all = self.objects@;
        proof {
            assert(all.subrange(0, all.len() as int) =~= all);
        }
        let mut i: usize = 0;
        while i < self.objects.len()
            invariant
                0 <= i <= self.objects.len(),
                all == self.objects@,
                merge_hits(out, scan_hits(all.subrange(i as int, all.len() as int), *ray, min@, closest@))
                    == scan_hits(all, *ray, min@, max@),
                match out {
                    Some(h) => closest@ == h.distance@,
                    None => closest@ == max@,
                },
            decreases self.objects.len() - i,
        {
            let ghost rest = all.subrange(i as int, all.len() as int);
            proof {
                assert(rest.drop_first() =~= all.subrange(i as int + 1, all.len() as int));
                assert(rest[0] == all[i as int]);
            }
            let object = &self.objects[i];
            match object.hit(ray, min, closest) {
                Some(hit) => {
                    closest = hit.distance;
                    out = Some(hit);
                },
                None => {},
            }
            i = i + 1;
        }
        proof {
            assert(all.subrange(all.len() as int, all.len() as int) =~= Seq::<
                Primitive,
            >::empty());
        }
        out
    }
}

/// An empty scene never reports a hit, whatever the ray and interval.
pub proof fn lemma_empty_scene_misses(objs: Seq<Primitive>, ray: Ray, min: int, max: int)
    requires
        objs.len() == 0,
    ensures
        scan_hits(objs, ray, min, max) is None,
{
}

/// Whether every primitive of a scene is a sphere.
pub open spec fn all_spheres(objs: Seq<Primitive>) -> bool {
    forall|i: int| 0 <= i < objs.len() ==> objs[i] is Sphere
}

/// The strike of a primitive lies strictly inside the queried interval.
proof fn lemma_prim_hit_bounds(p: Primitive, ray: Ray, min: int, max: int, h: Hit)
    requires
        p is Sphere,
        prim_hit(p, ray, min, max) == Some(h),
    ensures
        min < h.distance@ < max,
{
    match p {
        Primitive::Sphere(s) => lemma_sphere_hit_some_t(s, ray, min, max, h),
        Primitive::Mandelbulb(_) => {},
    }
}

/// Lifting a strike from a shrunken far bound to the full interval.
proof fn lemma_prim_hit_unshrunk(p: Primitive, ray: Ray, min: int, max: int, max2: int, h: Hit)
    requires
        p is Sphere,
        max2 <= max,
        prim_hit(p, ray, min, max2) == Some(h),
    ensures
        prim_hit(p, ray, min, max) == Some(h),
{
    match p {
        Primitive::Sphere(s) => lemma_sphere_hit_unshrunk(s, ray, min, max, max2, h),
        Primitive::Mandelbulb(_) => {},
    }
}

/// A primitive silent under a shrunken far bound strikes, if at all,
/// only at or beyond that bound.
proof fn lemma_prim_hit_blocked(p: Primitive, ray: Ray, min: int, max: int, max2: int)
    requires
        p is Sphere,
        max2 <= max,
        prim_hit(p, ray, min, max2) is None,
    ensures
        match prim_hit(p, ray, min, max) {
            Some(h2) => h2.distance@ >= max2,
            None => true,
        },
{
    match p {
        Primitive::Sphere(s) => lemma_sphere_hit_blocked(s, ray, min, max, max2),
        Primitive::Mandelbulb(_) => {},
    }
}

/// The scene scan finds the nearest strike. For a scene of spheres, a
/// reported hit is the hit of one of its primitives over the full
/// interval, no primitive strikes strictly nearer, and a silent scan
/// means no primitive strikes at all.
pub proof fn lemma_scan_finds_nearest(objs: Seq<Primitive>, ray: Ray, min: int, max: int)
    requires
        all_spheres(objs),
    ensures
        match scan_hits(objs, ray, min, max) {
            Some(h) => {
                &&& min < h.distance@ < max
                &&& exists|i: int|
                    0 <= i < objs.len() && #[trigger] prim_hit(objs[i], ray, min, max) == Some(h)
                &&& forall|j: int|
                    0 <= j < objs.len() ==> match #[trigger] prim_hit(objs[j], ray, min, max) {
                        Some(h2) => h2.distance@ >= h.distance@,
                        None => true,
                    }
            },
            None => forall|j: int|
                0 <= j < objs.len() ==> (#[trigger] prim_hit(objs[j], ray, min, max)) is None,
        },
    decreases objs.len(),
{
    if objs.len() == 0 {
        return ;
    }
    let rest = objs.drop_first();
    assert forall|i: int| 0 <= i < rest.len() implies rest[i] is Sphere by {
        assert(rest[i] == objs[i + 1]);
    }
    match prim_hit(objs[0], ray, min, max) {
        None => {
            lemma_scan_finds_nearest(rest, ray, min, max);
            assert(scan_hits(objs, ray, min, max) == scan_hits(rest, ray, min, max));
            match scan_hits(objs, ray, min, max) {
                Some(h) => {
                    let i = choose|i: int|
                        0 <= i < rest.len() && #[trigger] prim_hit(rest[i], ray, min, max)
                            == Some(h);
                    assert(rest[i] == objs[i + 1]);
                    assert(prim_hit(objs[i + 1], ray, min, max) == Some(h));
                    assert forall|j: int| 0 <= j < objs.len() implies match #[trigger] prim_hit(
                        objs[j],
                        ray,
                        min,
                        max,
                    ) {
                        Some(h2) => h2.distance@ >= h.distance@,
                        None => true,
                    } by {
                        if j >= 1 {
                            assert(objs[j] == rest[j - 1]);
                        }
                    }
                },
                None => {
                    assert forall|j: int| 0 <= j < objs.len() implies (#[trigger] prim_hit(
                        objs[j],
                        ray,
                        min,
                        max,
                    )) is None by {
                        if j >= 1 {
                            assert(objs[j] == rest[j - 1]);
                        }
                    }
                },
            }
        },
        Some(h) => {
            lemma_prim_hit_bounds(objs[0], ray, min, max, h);
            lemma_scan_finds_nearest(rest, ray, min, h.distance@);
            match scan_hits(rest, ray, min, h.distance@) {
                None => {
                    assert(scan_hits(objs, ray, min, max) == Some(h));
                    assert forall|j: int| 0 <= j < objs.len() implies match #[trigger] prim_hit(
                        objs[j],
                        ray,
                        min,
                        max,
                    ) {
                        Some(h2) => h2.distance@ >= h.distance@,
                        None => true,
                    } by {
                        if j >= 1 {
                            assert(objs[j] == rest[j - 1]);
                            assert(prim_hit(rest[j - 1], ray, min, h.distance@) is None);
                            lemma_prim_hit_blocked(objs[j], ray, min, max, h.distance@);
                        }
                    }
                },
                Some(h2) => {
                    assert(scan_hits(objs, ray, min, max) == Some(h2));
                    let i = choose|i: int|
                        0 <= i < rest.len() && #[trigger] prim_hit(rest[i], ray, min, h.distance@)
                            == Some(h2);
                    assert(rest[i] == objs[i + 1]);
                    lemma_prim_hit_unshrunk(objs[i + 1], ray, min, max, h.distance@, h2);
                    assert(prim_hit(objs[i + 1], ray, min, max) == Some(h2));
                    assert forall|j: int| 0 <= j < objs.len() implies match #[trigger] prim_hit(
                        objs[j],
                        ray,
                        min,
                        max,
                    ) {
                        Some(h3) => h3.distance@ >= h2.distance@,
                        None => true,
                    } by {
                        if j >= 1 {
                            assert(objs[j] == rest[j - 1]);
                            match prim_hit(rest[j - 1], ray, min, h.distance@) {
                                Some(h3) => {
                                    lemma_prim_hit_unshrunk(
                                        objs[j],
                                        ray,
                                        min,
                                        max,
                                        h.distance@,
                                        h3,
                                    );
                                },
                                None => {
                                    lemma_prim_hit_blocked(objs[j], ray, min, max, h.distance@);
                                },
                            }
                        }
                    }
                },
            }
        },
    }
}

/// Order independence of the nearest hit: a scene of two spheres that
/// both strike a ray, one strictly nearer, reports the nearer strike in
/// either order of the two spheres.
pub proof fn lemma_two_spheres_order_independent(
    s1: Sphere,
    s2: Sphere,
    ray: Ray,
    min: int,
    max: int,
    h1: Hit,
    h2: Hit,
)
    requires
        sphere_hit_spec(s1, ray, min, max) == Some(h1),
        sphere_hit_spec(s2, ray, min, max) == Some(h2),
        h1.distance@ < h2.distance@,
    ensures
        scan_hits(
            seq![Primitive::Sphere(s1), Primitive::Sphere(s2)],
            ray,
            min,
            max,
        ) == Some(h1),
        scan_hits(
            seq![Primitive::Sphere(s2), Primitive::Sphere(s1)],
            ray,
            min,
            max,
        ) == Some(h1),
{
    lemma_sphere_hit_some_t(s1, ray, min, max, h1);
    lemma_sphere_hit_some_t(s2, ray, min, max, h2);
    lemma_sphere_hit_gone_when_shrunk(s2, ray, min, max, h1.distance@, h2);
    lemma_sphere_hit_kept_when_shrunk(s1, ray, min, max, h2.distance@, h1);
    let one1 = seq![Primitive::Sphere(s1)];
    let one2 = seq![Primitive::Sphere(s2)];
    let fwd = seq![Primitive::Sphere(s1), Primitive::Sphere(s2)];
    let rev = seq![Primitive::Sphere(s2), Primitive::Sphere(s1)];
    assert(fwd[0] == Primitive::Sphere(s1) && fwd.len() == 2);
    assert(rev[0] == Primitive::Sphere(s2) && rev.len() == 2);
    assert(one1[0] == Primitive::Sphere(s1) && one1.len() == 1);
    assert(one2[0] == Primitive::Sphere(s2) && one2.len() == 1);
    assert(fwd.drop_first() =~= one2);
    assert(rev.drop_first() =~= one1);
    assert(one1.drop_first() =~= Seq::<Primitive>::empty());
    assert(one2.drop_first() =~= Seq::<Primitive>::empty());
    lemma_empty_scene_misses(one2.drop_first(), ray, min, h1.distance@);
    lemma_empty_scene_misses(one1.drop_first(), ray, min, h1.distance@);
    assert(scan_hits(one2, ray, min, h1.distance@) is None);
    assert(scan_hits(fwd, ray, min, max) == Some(h1));
    assert(scan_hits(one1, ray, min, h2.distance@) == Some(h1));
    assert(scan_hits(rev, ray, min, max) == Some(h1));
}

} // verus!
