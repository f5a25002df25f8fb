use raytracer::aabb::AABB;
use raytracer::bvh::{BvhNode, BvhTree};
use raytracer::hittables::{HitRecord, Hittables};
use raytracer::interval::Interval;
use raytracer::ray::Ray;
use raytracer::sphere::nearest_root;
use raytracer::traits::Hittable;
use raytracer::utils::Rng;
use raytracer::vec3::Vec3;
use std::cmp::Ordering;

fn rank(x: f64) -> i64 {
    let x = if x == 0.0 { 0.0 } else { x };
    let b = x.to_bits() as i64;
    if b < 0 {
        b ^ i64::MAX
    } else {
        b
    }
}

fn number(r: i64) -> f64 {
    let b = if r < 0 { r ^ i64::MAX } else { r };
    f64::from_bits(b as u64)
}

fn point(x: f64, y: f64, z: f64) -> Vec3 {
    Vec3::new(rank(x), rank(y), rank(z))
}

fn ray(from: [f64; 3], to: [f64; 3]) -> Ray {
    Ray::new(
        point(from[0], from[1], from[2]),
        point(to[0] - from[0], to[1] - from[1], to[2] - from[2]),
        0,
    )
}

fn window(lo: f64, hi: f64) -> Interval {
    Interval::new(rank(lo), rank(hi))
}

/// A sphere in double precision, decided by the kernel.
#[derive(Clone, Debug)]
struct Ball {
    center: [f64; 3],
    radius: f64,
    material: usize,
}

impl Ball {
    fn new(x: f64, y: f64, z: f64, radius: f64, material: usize) -> Ball {
        Ball { center: [x, y, z], radius, material }
    }
}

impl Hittable for Ball {
    fn hit_spec(&self, ray: Ray, lo: i64, hi: i64) -> Option<HitRecord> {
        let o = [number(ray.orig.x), number(ray.orig.y), number(ray.orig.z)];
        let d = [number(ray.dir.x), number(ray.dir.y), number(ray.dir.z)];
        let oc = [o[0] - self.center[0], o[1] - self.center[1], o[2] - self.center[2]];
        let a = d[0] * d[0] + d[1] * d[1] + d[2] * d[2];
        let half_b = oc[0] * d[0] + oc[1] * d[1] + oc[2] * d[2];
        let c = oc[0] * oc[0] + oc[1] * oc[1] + oc[2] * oc[2] - self.radius * self.radius;
        let disc = half_b * half_b - a * c;
        let (near, far) = if disc < 0.0 {
            (0.0, 0.0)
        } else {
            ((-half_b - disc.sqrt()) / a, (-half_b + disc.sqrt()) / a)
        };
        let t = nearest_root(rank(disc), rank(near), rank(far), &Interval::new(lo, hi))?;
        let tt = number(t);
        let p = [o[0] + tt * d[0], o[1] + tt * d[1], o[2] + tt * d[2]];
        let n = [
            (p[0] - self.center[0]) / self.radius,
            (p[1] - self.center[1]) / self.radius,
            (p[2] - self.center[2]) / self.radius,
        ];
        let facing = d[0] * n[0] + d[1] * n[1] + d[2] * n[2];
        let mut rec = HitRecord::new(point(p[0], p[1], p[2]), self.material, t, 0, 0);
        rec.set_face_normal(rank(facing), &point(n[0], n[1], n[2]));
        Some(rec)
    }

    fn bounding_box_spec(&self) -> AABB {
        let r = self.radius;
        AABB::new(
            &point(self.center[0] - r, self.center[1] - r, self.center[2] - r),
            &point(self.center[0] + r, self.center[1] + r, self.center[2] + r),
        )
    }

    fn slab_spec(bounds: Interval, origin: i64, direction: i64) -> Interval {
        let inv = 1.0 / number(direction);
        let t0 = (number(bounds.min) - number(origin)) * inv;
        let t1 = (number(bounds.max) - number(origin)) * inv;
        if inv < 0.0 {
            Interval::new(rank(t1), rank(t0))
        } else {
            Interval::new(rank(t0), rank(t1))
        }
    }

    fn hit(&self, ray: &Ray, ray_t: &mut Interval) -> Option<HitRecord> {
        let res = self.hit_spec(*ray, ray_t.min, ray_t.max);
        if let Some(rec) = res {
            ray_t.max = rec.t;
        }
        res
    }

    fn bounding_box(&self) -> AABB {
        self.bounding_box_spec()
    }

    fn slab(bounds: &Interval, origin: i64, direction: i64) -> Interval {
        Self::slab_spec(*bounds, origin, direction)
    }
}

fn uniform(rng: &mut Rng) -> f64 {
    (rng.next_u64() >> 11) as f64 / 9007199254740992.0
}

fn scene(n: usize, seed: u64) -> Vec<Ball> {
    let mut rng = Rng::new(seed);
    let mut balls = Vec::new();
    for k in 0..n {
        balls.push(Ball::new(
            20.0 * uniform(&mut rng) - 10.0,
            20.0 * uniform(&mut rng) - 10.0,
            20.0 * uniform(&mut rng) - 10.0,
            0.2 + 1.5 * uniform(&mut rng),
            k,
        ));
    }
    balls
}

fn list_of(balls: &Vec<Ball>) -> Hittables<Ball> {
    let mut list = Hittables::empty();
    for b in balls {
        list.add(b.clone());
    }
    list
}

fn leaves(tree: &BvhTree, out: &mut Vec<usize>) {
    match tree {
        BvhTree::Leaf(k) => out.push(*k),
        BvhTree::Node { left, right, .. } => {
            leaves(left, out);
            leaves(right, out);
        }
    }
}

fn bounds(tree: &BvhTree, balls: &Vec<Ball>) -> AABB {
    match tree {
        BvhTree::Leaf(k) => balls[*k].bounding_box(),
        BvhTree::Node { bbox, .. } => *bbox,
    }
}

/// Checks the shape that construction gives to `tree` over the objects that
/// stand at its leaves, and returns how many objects it holds.
fn check_built(tree: &BvhTree, balls: &Vec<Ball>) -> usize {
    let BvhTree::Node { left, right, bbox } = tree else {
        panic!("a hierarchy is a node");
    };
    assert_eq!(*bbox, AABB::merge(&bounds(left, balls), &bounds(right, balls)));
    let mut all = Vec::new();
    leaves(tree, &mut all);
    match (&**left, &**right) {
        (BvhTree::Leaf(a), BvhTree::Leaf(b)) => {
            if a == b {
                1
            } else {
                2
            }
        }
        _ => {
            let l = check_built(left, balls);
            let r = check_built(right, balls);
            let n = l + r;
            assert!(n >= 3);
            assert_eq!(l, n / 2);
            let mut lower = Vec::new();
            let mut upper = Vec::new();
            leaves(left, &mut lower);
            leaves(right, &mut upper);
            lower.dedup();
            upper.dedup();
            let sorted_on = |axis: u32| {
                lower.iter().all(|a| {
                    upper.iter().all(|b| {
                        balls[*a].bounding_box().axis(axis).min
                            <= balls[*b].bounding_box().axis(axis).min
                    })
                })
            };
            assert!(sorted_on(0) || sorted_on(1) || sorted_on(2));
            n
        }
    }
}

#[test]
fn list_starts_empty_and_grows_in_order() {
    let mut list: Hittables<Ball> = Hittables::empty();
    assert_eq!(list.objects().len(), 0);
    assert_eq!(list.bounding_box(), AABB::default());
    list.add(Ball::new(0.0, 0.0, 0.0, 1.0, 7));
    list.add(Ball::new(5.0, 0.0, 0.0, 2.0, 8));
    assert_eq!(list.objects().len(), 2);
    assert_eq!(list.objects()[0].material, 7);
    assert_eq!(list.objects()[1].material, 8);
    assert_eq!(
        list.bounding_box(),
        AABB::new(&point(-1.0, -2.0, -2.0), &point(7.0, 2.0, 2.0))
    );
    let one = Hittables::new(Ball::new(1.0, 1.0, 1.0, 1.0, 3));
    assert_eq!(one.objects().len(), 1);
    assert_eq!(one.bounding_box(), AABB::new(&point(0.0, 0.0, 0.0), &point(2.0, 2.0, 2.0)));
    assert_eq!(one.into_objects().len(), 1);
}

#[test]
fn list_reports_the_nearest_hit_and_tightens_the_window() {
    let balls = vec![
        Ball::new(0.0, 0.0, -10.0, 1.0, 0),
        Ball::new(0.0, 0.0, -4.0, 1.0, 1),
        Ball::new(0.0, 0.0, -7.0, 1.0, 2),
    ];
    let list = list_of(&balls);
    let r = ray([0.0, 0.0, 0.0], [0.0, 0.0, -1.0]);
    let mut w = window(0.001, f64::INFINITY);
    let rec = list.hit(&r, &mut w).unwrap();
    assert_eq!(rec.material, 1);
    assert_eq!(rec.t, rank(3.0));
    assert_eq!(rec.point, point(0.0, 0.0, -3.0));
    assert_eq!(rec.normal, point(0.0, 0.0, 1.0));
    assert!(rec.front_face);
    assert_eq!(w, window(0.001, 3.0));
}

#[test]
fn list_leaves_the_window_alone_on_a_miss() {
    let list = list_of(&scene(10, 3));
    let r = ray([100.0, 100.0, 100.0], [101.0, 100.0, 100.0]);
    let mut w = window(0.001, 50.0);
    assert!(list.hit(&r, &mut w).is_none());
    assert_eq!(w, window(0.001, 50.0));
    let empty: Hittables<Ball> = Hittables::empty();
    assert!(empty.hit(&r, &mut w).is_none());
    assert_eq!(w, window(0.001, 50.0));
}

#[test]
fn hit_inside_a_sphere_turns_the_normal_inward() {
    let list = list_of(&vec![Ball::new(0.0, 0.0, 0.0, 2.0, 0)]);
    let r = ray([0.0, 0.0, 0.0], [1.0, 0.0, 0.0]);
    let mut w = window(0.001, f64::INFINITY);
    let rec = list.hit(&r, &mut w).unwrap();
    assert_eq!(rec.t, rank(2.0));
    assert!(!rec.front_face);
    assert_eq!(rec.normal, point(-1.0, 0.0, 0.0));
}

#[test]
fn slab_test_through_a_box() {
    let b = AABB::new(&point(1.0, -1.0, -1.0), &point(3.0, 1.0, 1.0));
    let along = ray([0.0, 0.0, 0.0], [1.0, 0.0, 0.0]);
    assert!(b.hit::<Ball>(&along, window(0.0, 10.0)));
    assert!(b.hit::<Ball>(&along, window(2.0, 2.5)));
    assert!(!b.hit::<Ball>(&along, window(0.0, 1.0)));
    assert!(!b.hit::<Ball>(&along, window(3.0, 10.0)));
    let back = ray([5.0, 0.5, 0.5], [4.0, 0.5, 0.5]);
    assert!(b.hit::<Ball>(&back, window(0.0, 10.0)));
    assert!(!b.hit::<Ball>(&back, window(0.0, 2.0)));
    let beside = ray([0.0, 2.0, 0.5], [1.0, 2.0, 0.5]);
    assert!(!b.hit::<Ball>(&beside, window(0.0, 10.0)));
    let skew = ray([0.0, -3.0, 0.5], [1.0, -2.0, 0.5]);
    assert!(b.hit::<Ball>(&skew, window(0.0, 10.0)));
}

#[test]
fn slab_test_is_monotone_in_the_window() {
    let mut rng = Rng::new(11);
    let b = AABB::new(&point(-1.0, -2.0, -3.0), &point(2.0, 1.0, 0.5));
    let mut hits = 0;
    for _ in 0..2000 {
        let from = [
            10.0 * uniform(&mut rng) - 5.0,
            10.0 * uniform(&mut rng) - 5.0,
            10.0 * uniform(&mut rng) - 5.0,
        ];
        let to = [
            10.0 * uniform(&mut rng) - 5.0,
            10.0 * uniform(&mut rng) - 5.0,
            10.0 * uniform(&mut rng) - 5.0,
        ];
        let r = ray(from, to);
        let lo = 2.0 * uniform(&mut rng);
        let hi = lo + 2.0 * uniform(&mut rng);
        if b.hit::<Ball>(&r, window(lo, hi)) {
            hits += 1;
            let wider = window(lo - uniform(&mut rng), hi + uniform(&mut rng));
            assert!(b.hit::<Ball>(&r, wider));
            assert!(b.hit::<Ball>(&r, Interval::universe()));
        }
    }
    assert!(hits > 100);
}

#[test]
fn hierarchy_of_one_has_the_object_on_both_sides() {
    let balls = vec![Ball::new(1.0, 2.0, 3.0, 1.0, 0)];
    let bvh = BvhNode::new(balls.clone(), &mut Rng::new(1));
    assert!(matches!(
        bvh.root(),
        BvhTree::Node { left, right, bbox }
            if matches!(**left, BvhTree::Leaf(0)) && matches!(**right, BvhTree::Leaf(0))
                && *bbox == balls[0].bounding_box()
    ));
    assert_eq!(bvh.bounding_box(), balls[0].bounding_box());
    assert_eq!(bvh.objects().len(), 1);
}

#[test]
fn hierarchy_of_two_has_them_in_their_order() {
    let balls = vec![Ball::new(5.0, 0.0, 0.0, 1.0, 0), Ball::new(-5.0, 0.0, 0.0, 1.0, 1)];
    let bvh = BvhNode::new(balls.clone(), &mut Rng::new(1));
    assert!(matches!(
        bvh.root(),
        BvhTree::Node { left, right, .. }
            if matches!(**left, BvhTree::Leaf(0)) && matches!(**right, BvhTree::Leaf(1))
    ));
    assert_eq!(
        bvh.bounding_box(),
        AABB::new(&point(-6.0, -1.0, -1.0), &point(6.0, 1.0, 1.0))
    );
}

#[test]
fn hierarchy_of_three_is_sorted_and_halved() {
    let balls = vec![
        Ball::new(9.0, 9.0, 9.0, 1.0, 0),
        Ball::new(5.0, 5.0, 5.0, 1.0, 1),
        Ball::new(1.0, 1.0, 1.0, 1.0, 2),
    ];
    let bvh = BvhNode::new(balls.clone(), &mut Rng::new(4));
    let mut all = Vec::new();
    leaves(bvh.root(), &mut all);
    assert_eq!(all, vec![2, 2, 1, 0]);
    assert_eq!(check_built(bvh.root(), &balls), 3);
}

#[test]
fn hierarchy_keeps_ties_in_their_order() {
    let balls = vec![
        Ball::new(0.0, 0.0, 0.0, 1.0, 0),
        Ball::new(0.0, 0.0, 0.0, 1.0, 1),
        Ball::new(0.0, 0.0, 0.0, 1.0, 2),
        Ball::new(0.0, 0.0, 0.0, 1.0, 3),
        Ball::new(0.0, 0.0, 0.0, 1.0, 4),
    ];
    let bvh = BvhNode::new(balls, &mut Rng::new(8));
    let mut all = Vec::new();
    leaves(bvh.root(), &mut all);
    assert_eq!(all, vec![0, 1, 2, 2, 3, 4]);
}

#[test]
fn hierarchy_holds_every_object_and_records_every_box() {
    for (n, seed) in [(1, 1), (2, 2), (3, 3), (4, 4), (7, 5), (16, 6), (33, 7), (100, 8)] {
        let balls = scene(n, seed);
        let mut rng = Rng::new(seed);
        let bvh = BvhNode::new(balls.clone(), &mut rng);
        assert_eq!(check_built(bvh.root(), &balls), n);
        let mut all = Vec::new();
        leaves(bvh.root(), &mut all);
        all.sort();
        all.dedup();
        assert_eq!(all, (0..n).collect::<Vec<usize>>());
        assert_eq!(bvh.bounding_box(), list_of(&balls).bounding_box());
        if n >= 3 {
            assert_ne!(rng.state(), seed);
        } else {
            assert_eq!(rng.state(), seed);
        }
    }
}

#[test]
fn hierarchy_from_a_list() {
    let balls = scene(9, 21);
    let bvh = BvhNode::new_from_hittables(list_of(&balls), &mut Rng::new(2));
    assert_eq!(bvh.objects().len(), 9);
    assert_eq!(check_built(bvh.root(), &balls), 9);
}

#[test]
fn hierarchy_finds_what_the_list_finds() {
    let mut rng = Rng::new(99);
    let mut found = 0;
    for (n, seed) in [(1, 10), (2, 11), (3, 12), (5, 13), (40, 14), (150, 15)] {
        let balls = scene(n, seed);
        let list = list_of(&balls);
        let bvh = BvhNode::new(balls, &mut rng);
        for _ in 0..400 {
            let from = [
                30.0 * uniform(&mut rng) - 15.0,
                30.0 * uniform(&mut rng) - 15.0,
                30.0 * uniform(&mut rng) - 15.0,
            ];
            let to = [
                10.0 * uniform(&mut rng) - 5.0,
                10.0 * uniform(&mut rng) - 5.0,
                10.0 * uniform(&mut rng) - 5.0,
            ];
            let r = ray(from, to);
            let hi = if uniform(&mut rng) < 0.5 { f64::INFINITY } else { 2.0 * uniform(&mut rng) };
            let mut w1 = window(0.001, hi);
            let mut w2 = window(0.001, hi);
            let a = list.hit(&r, &mut w1);
            let b = bvh.hit(&r, &mut w2);
            assert_eq!(a.map(|rec| rec.t), b.map(|rec| rec.t));
            assert_eq!(a, b);
            assert_eq!(w1, w2);
            if a.is_some() {
                found += 1;
            }
        }
    }
    assert!(found > 200);
}

#[test]
fn hierarchy_tightens_the_window_to_the_hit() {
    let balls = vec![
        Ball::new(0.0, 0.0, -10.0, 1.0, 0),
        Ball::new(0.0, 0.0, -4.0, 1.0, 1),
        Ball::new(0.0, 0.0, -7.0, 1.0, 2),
        Ball::new(0.0, 0.0, -20.0, 1.0, 3),
    ];
    for seed in 0..20 {
        let bvh = BvhNode::new(balls.clone(), &mut Rng::new(seed));
        let r = ray([0.0, 0.0, 0.0], [0.0, 0.0, -1.0]);
        let mut w = window(0.001, f64::INFINITY);
        let rec = bvh.hit(&r, &mut w).unwrap();
        assert_eq!(rec.material, 1);
        assert_eq!(w, window(0.001, 3.0));
        let mut behind = window(3.0, f64::INFINITY);
        let next = bvh.hit(&r, &mut behind).unwrap();
        assert_eq!(next.t, rank(5.0));
        assert_eq!(behind, window(3.0, 5.0));
        let mut none = window(0.001, 2.9);
        assert!(bvh.hit(&r, &mut none).is_none());
        assert_eq!(none, window(0.001, 2.9));
    }
}

#[test]
fn box_compare_orders_by_the_lower_end() {
    let a = Ball::new(0.0, 5.0, -3.0, 1.0, 0);
    let b = Ball::new(2.0, 5.0, -9.0, 1.0, 1);
    assert_eq!(BvhNode::<Ball>::box_compare(&a, &b, 0), Ordering::Less);
    assert_eq!(BvhNode::<Ball>::box_compare(&a, &b, 1), Ordering::Equal);
    assert_eq!(BvhNode::<Ball>::box_compare(&a, &b, 2), Ordering::Greater);
    assert_eq!(BvhNode::<Ball>::box_compare(&b, &a, 0), Ordering::Greater);
}

#[test]
fn flat_box_is_missed_until_it_is_padded() {
    let flat = AABB::new(&point(0.0, 0.0, 0.0), &point(1.0, 1.0, 0.0));
    let r = ray([0.5, 0.5, 1.0], [0.5, 0.5, 0.0]);
    assert!(!flat.hit::<Ball>(&r, window(0.001, f64::INFINITY)));
    let delta = 0.0001;
    let padded = AABB {
        x: flat.x,
        y: flat.y,
        z: Interval::new(rank(0.0 - delta / 2.0), rank(0.0 + delta / 2.0)),
    };
    assert!(padded.hit::<Ball>(&r, window(0.001, f64::INFINITY)));
    assert!(padded.hit::<Ball>(&r, window(0.9999, 1.0001)));
    assert!(!padded.hit::<Ball>(&r, window(1.001, f64::INFINITY)));
}

#[test]
fn tied_objects_are_told_apart_by_their_order_only() {
    let balls = vec![
        Ball::new(0.0, 0.0, -5.0, 1.0, 0),
        Ball::new(0.0, 0.0, -5.0, 1.0, 1),
        Ball::new(0.0, 0.0, -9.0, 1.0, 2),
    ];
    let list = list_of(&balls);
    let bvh = BvhNode::new(balls, &mut Rng::new(3));
    let r = ray([0.0, 0.0, 0.0], [0.0, 0.0, -1.0]);
    let a = list.hit(&r, &mut window(0.001, f64::INFINITY)).unwrap();
    let b = bvh.hit(&r, &mut window(0.001, f64::INFINITY)).unwrap();
    assert_eq!(a.t, rank(4.0));
    assert_eq!(a.t, b.t);
    assert_eq!(a.material, 0);
}

#[test]
fn sort_along_is_stable() {
    let boxes: Vec<AABB> = [3.0, 1.0, 2.0, 1.0, 3.0, 0.0]
        .iter()
        .map(|x| AABB::new(&point(*x, 10.0 - *x, 5.0), &point(*x + 1.0, 20.0, 6.0)))
        .collect();
    let mut order: Vec<usize> = vec![0, 1, 2, 3, 4, 5];
    raytracer::bvh::sort_along(&mut order, &boxes, 0);
    assert_eq!(order, vec![5, 1, 3, 2, 0, 4]);
    raytracer::bvh::sort_along(&mut order, &boxes, 1);
    assert_eq!(order, vec![0, 4, 2, 1, 3, 5]);
    raytracer::bvh::sort_along(&mut order, &boxes, 2);
    assert_eq!(order, vec![0, 4, 2, 1, 3, 5]);
    let mut part: Vec<usize> = vec![4, 2];
    raytracer::bvh::sort_along(&mut part, &boxes, 0);
    assert_eq!(part, vec![2, 4]);
    let mut none: Vec<usize> = Vec::new();
    raytracer::bvh::sort_along(&mut none, &boxes, 0);
    assert!(none.is_empty());
}

#[test]
fn construction_draws_one_axis_for_every_run_of_three_or_more() {
    for (n, draws) in [(1, 0), (2, 0), (3, 1), (4, 1), (5, 2), (6, 3), (7, 3), (8, 3), (9, 4), (100, 63)] {
        let mut rng = Rng::new(2718);
        let mut twin = Rng::new(2718);
        BvhNode::new(scene(n, 40), &mut rng);
        for _ in 0..draws {
            twin.next_u64();
        }
        assert_eq!(rng.state(), twin.state());
    }
}

#[test]
fn construction_sorts_along_the_axis_that_is_drawn() {
    for seed in 0..30 {
        let balls = scene(3, 1000 + seed);
        let axis = Rng::new(seed).random_range(0, 3) as u32;
        let bvh = BvhNode::new(balls.clone(), &mut Rng::new(seed));
        let mut order: Vec<usize> = vec![0, 1, 2];
        let boxes: Vec<AABB> = balls.iter().map(|b| b.bounding_box()).collect();
        raytracer::bvh::sort_along(&mut order, &boxes, axis);
        let mut all = Vec::new();
        leaves(bvh.root(), &mut all);
        assert_eq!(all, vec![order[0], order[0], order[1], order[2]]);
    }
}
