//! The bounding-volume hierarchy.
//!
//! The hierarchy is a binary tree over the objects of a scene. Each node
//! keeps the box that its two children fill together; a ray that misses
//! the box is spared the whole subtree. Construction sorts the objects by
//! the lower end of their boxes along an axis picked at random, halves the
//! sorted run, and goes on with each half.

use vstd::prelude::*;
use std::cmp::Ordering;
use crate::aabb::AABB;
use crate::hittables::{HitRecord, Hittables, nearest_of};
use crate::interval::Interval;
use crate::ray::Ray;
use crate::scalar::Scalar;
use crate::traits::{Hittable, upper_after};
use crate::utils::{Rng, advanced, advanced_by, ranged, lemma_advanced_by};

verus! {

/// The shape of a hierarchy: a tree whose leaves name objects by their
/// place in the scene.
#[derive(Debug)]
pub enum BvhTree {
    Leaf(usize),
    Node { left: Box<BvhTree>, right: Box<BvhTree>, bbox: AABB },
}

impl BvhTree {
    /// The object `k` stands at a leaf of the tree.
    pub open spec fn has_leaf(self, k: int) -> bool
        decreases self,
    {
        match self {
            BvhTree::Leaf(n) => n == k,
            BvhTree::Node { left, right, bbox } => left.has_leaf(k) || right.has_leaf(k),
        }
    }

    /// The box of the tree: that of the object at a leaf, the recorded one
    /// at a node.
    pub open spec fn bounds(self, boxes: Seq<AABB>) -> AABB {
        match self {
            BvhTree::Leaf(n) => boxes[n as int],
            BvhTree::Node { left, right, bbox } => bbox,
        }
    }

    /// Every leaf names one of `n` objects, and every node records the box
    /// that its two children fill together.
    pub open spec fn consistent(self, boxes: Seq<AABB>) -> bool
        decreases self,
    {
        match self {
            BvhTree::Leaf(n) => n < boxes.len(),
            BvhTree::Node { left, right, bbox } => {
                &&& left.consistent(boxes)
                &&& right.consistent(boxes)
                &&& bbox == AABB::hull(left.bounds(boxes), right.bounds(boxes))
            },
        }
    }
}

/// The place of `x` in `s`.
pub open spec fn place(s: Seq<usize>, x: usize) -> int {
    choose|k: int| 0 <= k < s.len() && s[k] == x
}

/// `s` ascends: each item has a lower end below that of every later item,
/// or the same lower end and an earlier place in `inp`.
pub open spec fn ascends(s: Seq<usize>, inp: Seq<usize>, boxes: Seq<AABB>, axis: u32) -> bool {
    forall|a: int, b: int|
        #![trigger s[a], s[b]]
        0 <= a < b < s.len() ==> {
            ||| boxes[s[a] as int].low(axis) < boxes[s[b] as int].low(axis)
            ||| (boxes[s[a] as int].low(axis) == boxes[s[b] as int].low(axis) && place(inp, s[a])
                < place(inp, s[b]))
        }
}

/// `out` is `inp` sorted by the lower end of the boxes along `axis`, items
/// with equal lower ends staying in the order in which `inp` has them.
pub open spec fn sorted_along(out: Seq<usize>, inp: Seq<usize>, boxes: Seq<AABB>, axis: u32) -> bool {
    &&& out.to_multiset() == inp.to_multiset()
    &&& ascends(out, inp, boxes, axis)
}

/// How many numbers construction draws for `n` objects: one for the axis
/// of every run of three or more.
pub open spec fn draws(n: nat) -> nat
    decreases n,
{
    if n <= 2 {
        0
    } else {
        1 + draws(n / 2) + draws((n - n / 2) as nat)
    }
}

/// The axis that a generator in state `rng` picks next.
pub open spec fn picked_axis(rng: u64) -> u32 {
    ranged(advanced(rng), 0, 3) as u32
}

/// `tree` is the hierarchy that construction makes of the objects `order`
/// with a generator in state `rng`: one object stands on both sides of a
/// single node; two objects stand one on each side; three or more are
/// sorted along the axis that the generator picks and halved, the lower
/// half giving the left subtree and then the upper half the right one. Each
/// node records the box of its children.
pub open spec fn built(tree: BvhTree, boxes: Seq<AABB>, order: Seq<usize>, rng: u64) -> bool
    decreases tree,
{
    match tree {
        BvhTree::Leaf(_) => false,
        BvhTree::Node { left, right, bbox } => {
            &&& bbox == AABB::hull(left.bounds(boxes), right.bounds(boxes))
            &&& if order.len() == 1 {
                *left == BvhTree::Leaf(order[0]) && *right == BvhTree::Leaf(order[0])
            } else if order.len() == 2 {
                *left == BvhTree::Leaf(order[0]) && *right == BvhTree::Leaf(order[1])
            } else if order.len() >= 3 {
                exists|sorted: Seq<usize>|
                    {
                        &&& #[trigger] sorted_along(sorted, order, boxes, picked_axis(rng))
                        &&& built(*left, boxes, sorted.take(order.len() as int / 2), advanced(rng))
                        &&& built(
                            *right,
                            boxes,
                            sorted.skip(order.len() as int / 2),
                            advanced_by(advanced(rng), draws(order.len() / 2)),
                        )
                    }
            } else {
                false
            }
        },
    }
}

/// `s` with the items at `i` and `j` exchanged.
pub open spec fn swapped(s: Seq<usize>, i: int, j: int) -> Seq<usize> {
    s.update(i, s[j]).update(j, s[i])
}

/// Exchanging two items rearranges a sequence.
pub proof fn lemma_swap_rearranges(s: Seq<usize>, i: int, j: int)
    requires
        0 <= i < s.len(),
        0 <= j < s.len(),
    ensures
        swapped(s, i, j).to_multiset() == s.to_multiset(),
{
    crate::rearrange::lemma_exchange(s, i, j);
}

/// In a sequence without repeats, an item is found where it stands.
pub proof fn lemma_place(s: Seq<usize>, k: int)
    requires
        s.no_duplicates(),
        0 <= k < s.len(),
    ensures
        place(s, s[k]) == k,
{
}

/// Two ascending arrangements of the same items are the same arrangement.
pub proof fn lemma_ascending_unique(
    a: Seq<usize>,
    b: Seq<usize>,
    inp: Seq<usize>,
    boxes: Seq<AABB>,
    axis: u32,
)
    requires
        ascends(a, inp, boxes, axis),
        ascends(b, inp, boxes, axis),
        a.to_multiset() == b.to_multiset(),
    ensures
        a == b,
    decreases a.len(),
{
    broadcast use vstd::seq_lib::group_to_multiset_ensures;

    assert(a.len() == a.to_multiset().len());
    assert(b.len() == b.to_multiset().len());
    if a.len() == 0 {
        assert(a =~= b);
    } else {
        assert(b.contains(a[0])) by {
            assert(a.contains(a[0]));
            assert(a.to_multiset().count(a[0]) > 0);
        }
        assert(a.contains(b[0])) by {
            assert(b.contains(b[0]));
            assert(b.to_multiset().count(b[0]) > 0);
        }
        let j = choose|j: int| 0 <= j < b.len() && b[j] == a[0];
        let k = choose|k: int| 0 <= k < a.len() && a[k] == b[0];
        if j > 0 && k > 0 {
            assert(b[0] == b[0] && b[j] == a[0]);
            assert(a[0] == a[0] && a[k] == b[0]);
        }
        assert(a[0] == b[0]);
        let ra = a.remove(0);
        let rb = b.remove(0);
        assert(ra.to_multiset() == a.to_multiset().remove(a[0]));
        assert(rb.to_multiset() == b.to_multiset().remove(b[0]));
        assert forall|x: int, y: int| #![trigger ra[x], ra[y]] 0 <= x < y < ra.len() implies {
            ||| boxes[ra[x] as int].low(axis) < boxes[ra[y] as int].low(axis)
            ||| (boxes[ra[x] as int].low(axis) == boxes[ra[y] as int].low(axis) && place(
                inp,
                ra[x],
            ) < place(inp, ra[y]))
        } by {
            assert(ra[x] == a[x + 1] && ra[y] == a[y + 1]);
        }
        assert forall|x: int, y: int| #![trigger rb[x], rb[y]] 0 <= x < y < rb.len() implies {
            ||| boxes[rb[x] as int].low(axis) < boxes[rb[y] as int].low(axis)
            ||| (boxes[rb[x] as int].low(axis) == boxes[rb[y] as int].low(axis) && place(
                inp,
                rb[x],
            ) < place(inp, rb[y]))
        } by {
            assert(rb[x] == b[x + 1] && rb[y] == b[y + 1]);
        }
        lemma_ascending_unique(ra, rb, inp, boxes, axis);
        assert(a =~= seq![a[0]] + ra);
        assert(b =~= seq![b[0]] + rb);
    }
}

/// Sorting pins its result: two sequences that are both `inp` sorted along
/// `axis` are the same.
pub proof fn lemma_sorted_unique(
    a: Seq<usize>,
    b: Seq<usize>,
    inp: Seq<usize>,
    boxes: Seq<AABB>,
    axis: u32,
)
    requires
        sorted_along(a, inp, boxes, axis),
        sorted_along(b, inp, boxes, axis),
    ensures
        a == b,
{
    lemma_ascending_unique(a, b, inp, boxes, axis);
}

/// Sorts `order` by the lower end of the boxes along `axis`, keeping items
/// with equal lower ends in their order.
pub fn sort_along(order: &mut Vec<usize>, boxes: &Vec<AABB>, axis: u32)
    requires
        old(order)@.no_duplicates(),
        forall|k: int| 0 <= k < old(order)@.len() ==> #[trigger] old(order)@[k] < boxes@.len(),
    ensures
        sorted_along(final(order)@, old(order)@, boxes@, axis),
        final(order)@.len() == old(order)@.len(),
{
    let n = order.len();
    let ghost inp = order@;
    let ghost mut src: Seq<int> = Seq::new(n as nat, |k: int| k);
    let mut i: usize = 1;
    while i < n
        invariant
            n == order@.len(),
            n == inp.len(),
            1 <= i,
            inp.no_duplicates(),
            forall|k: int| 0 <= k < n ==> #[trigger] inp[k] < boxes@.len(),
            order@.to_multiset() == inp.to_multiset(),
            src.len() == n,
            forall|k: int| 0 <= k < n ==> 0 <= #[trigger] src[k] < n && order@[k] == inp[src[k]],
            forall|k: int| 0 <= k < n ==> #[trigger] order@[k] < boxes@.len(),
            forall|k: int| i <= k < n ==> src[k] == k,
            forall|k: int| 0 <= k < i && k < n ==> #[trigger] src[k] < i,
            forall|a: int, b: int|
                #![trigger order@[a], order@[b]]
                0 <= a < b < i && b < n ==> {
                    ||| boxes@[order@[a] as int].low(axis) < boxes@[order@[b] as int].low(axis)
                    ||| (boxes@[order@[a] as int].low(axis) == boxes@[order@[b] as int].low(axis)
                        && src[a] < src[b])
                },
        decreases n - i,
    {
        let mut j: usize = i;
        while j > 0 && boxes[order[j - 1]].axis(axis).min > boxes[order[j]].axis(axis).min
            invariant
                n == order@.len(),
                n == inp.len(),
                j <= i < n,
                forall|k: int| 0 <= k < n ==> #[trigger] inp[k] < boxes@.len(),
                order@.to_multiset() == inp.to_multiset(),
                src.len() == n,
                forall|k: int| 0 <= k < n ==> 0 <= #[trigger] src[k] < n && order@[k] == inp[src[k]],
                forall|k: int| 0 <= k < n ==> #[trigger] order@[k] < boxes@.len(),
                forall|k: int| i < k < n ==> src[k] == k,
                src[j as int] == i,
                forall|k: int| 0 <= k <= i && k != j ==> #[trigger] src[k] < i,
                forall|a: int, b: int|
                    #![trigger order@[a], order@[b]]
                    0 <= a < b <= i && a != j && b != j ==> {
                        ||| boxes@[order@[a] as int].low(axis) < boxes@[order@[b] as int].low(axis)
                        ||| (boxes@[order@[a] as int].low(axis) == boxes@[order@[b] as int].low(
                            axis,
                        ) && src[a] < src[b])
                    },
                forall|b: int|
                    j < b <= i ==> boxes@[order@[j as int] as int].low(axis) < boxes@[#[trigger] order@[b] as int].low(
                        axis,
                    ),
            decreases j,
        {
            let ghost before = order@;
            let ghost src_before = src;
            let a = order[j - 1];
            let b = order[j];
            order.set(j - 1, b);
            order.set(j, a);
            proof {
                lemma_swap_rearranges(before, j - 1, j as int);
                assert(order@ == swapped(before, j - 1, j as int));
                src = src.update(j - 1, src_before[j as int]).update(j as int, src_before[j - 1]);
            }
            j -= 1;
        }
        i += 1;
    }
    proof {
        assert forall|a: int, b: int|
            #![trigger order@[a], order@[b]]
            0 <= a < b < order@.len() implies {
            ||| boxes@[order@[a] as int].low(axis) < boxes@[order@[b] as int].low(axis)
            ||| (boxes@[order@[a] as int].low(axis) == boxes@[order@[b] as int].low(axis) && place(
                inp,
                order@[a],
            ) < place(inp, order@[b]))
        } by {
            lemma_place(inp, src[a]);
            lemma_place(inp, src[b]);
        }
    }
}

/// The boxes of the objects, in their order.
pub open spec fn boxes_of<T: Hittable>(objects: Seq<T>) -> Seq<AABB> {
    Seq::new(objects.len(), |k: int| objects[k].bounding_box_spec())
}

/// The numbers `0` to `n - 1` in their order.
pub open spec fn in_order(n: nat) -> Seq<usize> {
    Seq::new(n, |k: int| k as usize)
}

/// What a ray finds in the tree within the open window from `lo` to `hi`:
/// at a leaf, what the object there reports; at a node, nothing if the ray
/// misses the node's box within the window, and otherwise what the right
/// subtree finds nearer than the find of the left one, or else the latter.
pub open spec fn tree_hit<T: Hittable>(
    tree: BvhTree,
    objects: Seq<T>,
    ray: Ray,
    lo: Scalar,
    hi: Scalar,
) -> Option<HitRecord>
    decreases tree,
{
    match tree {
        BvhTree::Leaf(n) => objects[n as int].hit_spec(ray, lo, hi),
        BvhTree::Node { left, right, bbox } => {
            if !bbox.pierced_by::<T>(ray, Interval { min: lo, max: hi }) {
                None
            } else {
                let hit_left = tree_hit(*left, objects, ray, lo, hi);
                let hit_right = tree_hit(*right, objects, ray, lo, upper_after(hit_left, hi));
                match hit_right {
                    Some(rec) => Some(rec),
                    None => hit_left,
                }
            }
        },
    }
}

/// A rearrangement of a sequence without repeats has no repeats, and holds
/// the same items.
pub proof fn lemma_rearranged(out: Seq<usize>, inp: Seq<usize>)
    requires
        out.to_multiset() == inp.to_multiset(),
        inp.no_duplicates(),
    ensures
        out.no_duplicates(),
        out.len() == inp.len(),
        forall|x: usize| out.contains(x) <==> inp.contains(x),
{
    broadcast use vstd::seq_lib::group_to_multiset_ensures;

    inp.lemma_multiset_has_no_duplicates();
    out.lemma_multiset_has_no_duplicates_conv();
    assert(out.len() == out.to_multiset().len());
    assert(inp.len() == inp.to_multiset().len());
    assert forall|x: usize| out.contains(x) <==> inp.contains(x) by {
        assert(out.contains(x) <==> out.to_multiset().count(x) > 0);
        assert(inp.contains(x) <==> inp.to_multiset().count(x) > 0);
    }
}

/// The hierarchy built of `order` is consistent with the boxes, and its
/// leaves are the items of `order`.
pub proof fn lemma_built(tree: BvhTree, boxes: Seq<AABB>, order: Seq<usize>, rng: u64)
    requires
        built(tree, boxes, order, rng),
        order.no_duplicates(),
        forall|k: int| 0 <= k < order.len() ==> #[trigger] order[k] < boxes.len(),
    ensures
        tree.consistent(boxes),
        forall|x: usize| order.contains(x) <==> tree.has_leaf(x as int),
    decreases tree,
{
    match tree {
        BvhTree::Leaf(_) => {},
        BvhTree::Node { left, right, bbox } => {
            reveal_with_fuel(BvhTree::has_leaf, 2);
            reveal_with_fuel(BvhTree::consistent, 2);
            if order.len() == 1 {
                assert(order[0] < boxes.len());
                assert forall|x: usize| order.contains(x) <==> tree.has_leaf(x as int) by {
                    if tree.has_leaf(x as int) {
                        assert(order[0] == x);
                    }
                }
            } else if order.len() == 2 {
                assert(order[0] < boxes.len());
                assert(order[1] < boxes.len());
                assert forall|x: usize| order.contains(x) <==> tree.has_leaf(x as int) by {
                    if tree.has_leaf(x as int) {
                        assert(order[0] == x || order[1] == x);
                    }
                }
            } else {
                let mid = order.len() as int / 2;
                let sorted = choose|sorted: Seq<usize>|
                    {
                        &&& #[trigger] sorted_along(sorted, order, boxes, picked_axis(rng))
                        &&& built(*left, boxes, sorted.take(mid), advanced(rng))
                        &&& built(
                            *right,
                            boxes,
                            sorted.skip(mid),
                            advanced_by(advanced(rng), draws(order.len() / 2)),
                        )
                    };
                lemma_rearranged(sorted, order);
                let head = sorted.take(mid);
                let tail = sorted.skip(mid);
                assert forall|k: int| 0 <= k < sorted.len() implies #[trigger] sorted[k]
                    < boxes.len() by {
                    assert(sorted.contains(sorted[k]));
                    assert(order.contains(sorted[k]));
                }
                assert forall|k: int| 0 <= k < head.len() implies #[trigger] head[k]
                    < boxes.len() by {
                    assert(head[k] == sorted[k]);
                }
                assert forall|k: int| 0 <= k < tail.len() implies #[trigger] tail[k]
                    < boxes.len() by {
                    assert(tail[k] == sorted[k + mid]);
                }
                assert(head.no_duplicates()) by {
                    assert forall|a: int, b: int|
                        0 <= a < head.len() && 0 <= b < head.len() && a != b implies head[a]
                        != head[b] by {
                        assert(head[a] == sorted[a] && head[b] == sorted[b]);
                    }
                }
                assert(tail.no_duplicates()) by {
                    assert forall|a: int, b: int|
                        0 <= a < tail.len() && 0 <= b < tail.len() && a != b implies tail[a]
                        != tail[b] by {
                        assert(tail[a] == sorted[a + mid] && tail[b] == sorted[b + mid]);
                    }
                }
                lemma_built(*left, boxes, head, advanced(rng));
                lemma_built(*right, boxes, tail, advanced_by(advanced(rng), draws(order.len() / 2)));
                assert forall|x: usize| order.contains(x) <==> tree.has_leaf(x as int) by {
                    if sorted.contains(x) {
                        let k = choose|k: int| 0 <= k < sorted.len() && sorted[k] == x;
                        if k < mid {
                            assert(head[k] == x);
                            assert(head.contains(x));
                        } else {
                            assert(tail[k - mid] == x);
                            assert(tail.contains(x));
                        }
                    }
                    if head.contains(x) {
                        let k = choose|k: int| 0 <= k < head.len() && head[k] == x;
                        assert(sorted[k] == x);
                    }
                    if tail.contains(x) {
                        let k = choose|k: int| 0 <= k < tail.len() && tail[k] == x;
                        assert(sorted[k + mid] == x);
                    }
                }
            }
        },
    }
}

/// Builds the hierarchy of the objects named by `order`.
fn build(boxes: &Vec<AABB>, order: Vec<usize>, rng: &mut Rng) -> (tree: BvhTree)
    requires
        order@.len() >= 1,
        order@.no_duplicates(),
        forall|k: int| 0 <= k < order@.len() ==> #[trigger] order@[k] < boxes@.len(),
    ensures
        built(tree, boxes@, order@, old(rng)@),
        final(rng)@ == advanced_by(old(rng)@, draws(order@.len())),
    decreases order@.len(),
{
    let n = order.len();
    if n == 1 {
        let only = order[0];
        BvhTree::Node {
            left: Box::new(BvhTree::Leaf(only)),
            right: Box::new(BvhTree::Leaf(only)),
            bbox: AABB::merge(&boxes[only], &boxes[only]),
        }
    } else if n == 2 {
        let first = order[0];
        let second = order[1];
        BvhTree::Node {
            left: Box::new(BvhTree::Leaf(first)),
            right: Box::new(BvhTree::Leaf(second)),
            bbox: AABB::merge(&boxes[first], &boxes[second]),
        }
    } else {
        let ghost inp = order@;
        let axis = rng.random_range(0, 3) as u32;
        let mut order = order;
        sort_along(&mut order, boxes, axis);
        let ghost sorted = order@;
        let mid = n / 2;
        proof {
            lemma_rearranged(sorted, inp);
            assert forall|k: int| 0 <= k < sorted.len() implies #[trigger] sorted[k]
                < boxes@.len() by {
                assert(sorted.contains(sorted[k]));
                assert(inp.contains(sorted[k]));
            }
        }
        let upper = order.split_off(mid);
        proof {
            assert(order@ =~= sorted.take(mid as int));
            assert(upper@ =~= sorted.skip(mid as int));
            assert forall|a: int, b: int|
                0 <= a < order@.len() && 0 <= b < order@.len() && a != b implies order@[a]
                != order@[b] by {
                assert(order@[a] == sorted[a] && order@[b] == sorted[b]);
            }
            assert forall|a: int, b: int|
                0 <= a < upper@.len() && 0 <= b < upper@.len() && a != b implies upper@[a]
                != upper@[b] by {
                assert(upper@[a] == sorted[a + mid] && upper@[b] == sorted[b + mid]);
            }
            assert forall|k: int| 0 <= k < order@.len() implies #[trigger] order@[k]
                < boxes@.len() by {
                assert(order@[k] == sorted[k]);
            }
            assert forall|k: int| 0 <= k < upper@.len() implies #[trigger] upper@[k]
                < boxes@.len() by {
                assert(upper@[k] == sorted[k + mid]);
            }
        }
        let left = build(boxes, order, rng);
        let right = build(boxes, upper, rng);
        let bbox = AABB::merge(&bounds_of_node(&left), &bounds_of_node(&right));
        let tree = BvhTree::Node { left: Box::new(left), right: Box::new(right), bbox };
        proof {
            let first = advanced(old(rng)@);
            assert(axis == picked_axis(old(rng)@));
            assert(sorted_along(sorted, inp, boxes@, picked_axis(old(rng)@)));
            assert(sorted.take(mid as int).len() == mid);
            assert(sorted.skip(mid as int).len() == n - mid);
            lemma_advanced_by(first, draws(mid as nat), draws((n - mid) as nat));
            assert(advanced_by(old(rng)@, draws(n as nat)) == advanced_by(
                first,
                (draws(mid as nat) + draws((n - mid) as nat)) as nat,
            ));
        }
        tree
    }
}

/// The box that a node records.
fn bounds_of_node(tree: &BvhTree) -> (r: AABB)
    requires
        tree is Node,
    ensures
        r == tree->bbox,
{
    match tree {
        BvhTree::Node { left, right, bbox } => *bbox,
        BvhTree::Leaf(_) => AABB::default(),
    }
}

/// What a ray finds in a tree.
fn hit_tree<T: Hittable>(tree: &BvhTree, objects: &Vec<T>, ray: &Ray, ray_t: &mut Interval) -> (res:
    Option<HitRecord>)
    requires
        tree.consistent(boxes_of(objects@)),
    ensures
        res == tree_hit::<T>(*tree, objects@, *ray, old(ray_t).min, old(ray_t).max),
        res matches Some(rec) ==> old(ray_t).min < rec.t < old(ray_t).max,
        final(ray_t).min == old(ray_t).min,
        final(ray_t).max == upper_after(res, old(ray_t).max),
    decreases tree,
{
    match tree {
        BvhTree::Leaf(n) => objects[*n].hit(ray, ray_t),
        BvhTree::Node { left, right, bbox } => {
            if !bbox.hit::<T>(ray, *ray_t) {
                return None;
            }
            let hit_left = hit_tree(left, objects, ray, ray_t);
            let mut new_interval = Interval {
                min: ray_t.min,
                max: match hit_left {
                    Some(ref rec) => rec.t,
                    None => ray_t.max,
                },
            };
            let hit_right = hit_tree(right, objects, ray, &mut new_interval);
            match (hit_left, hit_right) {
                (Some(rec), None) => Some(rec),
                (_, Some(rec)) => {
                    ray_t.max = rec.t;
                    Some(rec)
                },
                _ => None,
            }
        },
    }
}

/// A bounding-volume hierarchy over a scene.
pub struct BvhNode<T: Hittable> {
    objects: Vec<T>,
    root: BvhTree,
}

impl<T: Hittable> BvhNode<T> {
    /// The root is a node; every leaf names an object of the scene and every
    /// object stands at a leaf; every node records the box of its children.
    #[verifier::type_invariant]
    pub closed spec fn wf(self) -> bool {
        &&& self.root is Node
        &&& self.root.consistent(boxes_of(self.objects@))
        &&& forall|k: int| 0 <= k < self.objects@.len() ==> self.root.has_leaf(k)
    }

    /// The objects of the scene, in the order in which they were given.
    pub closed spec fn view(self) -> Seq<T> {
        self.objects@
    }

    /// The tree.
    pub closed spec fn tree(self) -> BvhTree {
        self.root
    }

    /// What well-formedness says, for those who cannot see inside.
    pub proof fn lemma_wf(self)
        requires
            self.wf(),
        ensures
            self.tree() is Node,
            self.tree().consistent(boxes_of(self@)),
            forall|k: int| 0 <= k < self@.len() ==> self.tree().has_leaf(k),
    {
    }

    /// The hierarchy over the objects of a list.
    pub fn new_from_hittables(hittables: Hittables<T>, rng: &mut Rng) -> (r: Self)
        requires
            hittables@.len() >= 1,
        ensures
            r@ == hittables@,
            r.wf(),
            built(r.tree(), boxes_of(r@), in_order(r@.len()), old(rng)@),
            final(rng)@ == advanced_by(old(rng)@, draws(r@.len())),
    {
        Self::new(hittables.into_objects(), rng)
    }

    /// The hierarchy over `src_objects`.
    pub fn new(src_objects: Vec<T>, rng: &mut Rng) -> (r: Self)
        requires
            src_objects@.len() >= 1,
        ensures
            r@ == src_objects@,
            r.wf(),
            built(r.tree(), boxes_of(r@), in_order(r@.len()), old(rng)@),
            final(rng)@ == advanced_by(old(rng)@, draws(r@.len())),
    {
        let n = src_objects.len();
        let mut boxes: Vec<AABB> = Vec::new();
        let mut order: Vec<usize> = Vec::new();
        let mut i: usize = 0;
        while i < n
            invariant
                i <= n,
                n == src_objects@.len(),
                boxes@.len() == i,
                order@.len() == i,
                forall|k: int| 0 <= k < i ==> #[trigger] boxes@[k] == src_objects@[k].bounding_box_spec(),
                forall|k: int| 0 <= k < i ==> #[trigger] order@[k] == k,
            decreases n - i,
        {
            boxes.push(src_objects[i].bounding_box());
            order.push(i);
            i += 1;
        }
        proof {
            assert(boxes@ =~= boxes_of(src_objects@));
            assert(order@ =~= in_order(n as nat));
        }
        let root = build(&boxes, order, rng);
        proof {
            lemma_built(root, boxes@, in_order(n as nat), old(rng)@);
            assert forall|k: int| 0 <= k < n implies root.has_leaf(k) by {
                assert(in_order(n as nat)[k] == k as usize);
                assert(in_order(n as nat).contains(k as usize));
            }
        }
        BvhNode { objects: src_objects, root }
    }

    /// The objects of the scene.
    pub fn objects(&self) -> (r: &Vec<T>)
        ensures
            r@ == self@,
    {
        &self.objects
    }

    /// The tree.
    pub fn root(&self) -> (r: &BvhTree)
        ensures
            *r == self.tree(),
    {
        &self.root
    }
}

/// How two scalars compare.
pub open spec fn compared(a: Scalar, b: Scalar) -> Ordering {
    if a < b {
        Ordering::Less
    } else if a == b {
        Ordering::Equal
    } else {
        Ordering::Greater
    }
}

impl<T: Hittable> BvhNode<T> {
    /// Compares two objects by the lower end of their boxes along an axis.
    pub fn box_compare(box_a: &T, box_b: &T, axis_index: u32) -> (r: Ordering)
        ensures
            r == compared(
                box_a.bounding_box_spec().low(axis_index),
                box_b.bounding_box_spec().low(axis_index),
            ),
    {
        let a = box_a.bounding_box().axis(axis_index).min;
        let b = box_b.bounding_box().axis(axis_index).min;
        if a < b {
            Ordering::Less
        } else if a == b {
            Ordering::Equal
        } else {
            Ordering::Greater
        }
    }
}

impl<T: Hittable> Hittable for BvhNode<T> {
    open spec fn hit_spec(&self, ray: Ray, lo: Scalar, hi: Scalar) -> Option<HitRecord> {
        tree_hit::<T>(self.tree(), self@, ray, lo, hi)
    }

    open spec fn bounding_box_spec(&self) -> AABB {
        self.tree()->bbox
    }

    open spec fn slab_spec(bounds: Interval, origin: Scalar, direction: Scalar) -> Interval {
        T::slab_spec(bounds, origin, direction)
    }

    fn hit(&self, ray: &Ray, ray_t: &mut Interval) -> (res: Option<HitRecord>) {
        proof {
            use_type_invariant(self);
        }
        hit_tree(&self.root, &self.objects, ray, ray_t)
    }

    fn bounding_box(&self) -> (r: AABB) {
        proof {
            use_type_invariant(self);
        }
        bounds_of_node(&self.root)
    }

    fn slab(bounds: &Interval, origin: Scalar, direction: Scalar) -> (r: Interval) {
        T::slab(bounds, origin, direction)
    }
}

/// `res` cut down to what lies below `h`.
pub open spec fn below(res: Option<HitRecord>, h: Scalar) -> Option<HitRecord> {
    match res {
        Some(rec) => if rec.t < h {
            Some(rec)
        } else {
            None
        },
        None => None,
    }
}

/// The ray parameter of a find.
pub open spec fn parameter(res: Option<HitRecord>) -> Option<Scalar> {
    match res {
        Some(rec) => Some(rec.t),
        None => None,
    }
}

/// What makes an object fit for culling, for one ray: what it reports lies
/// strictly inside the window asked for; lowering the upper end of the
/// window takes a report away if it is no longer below that end, and
/// otherwise leaves it as it is; and wherever the object reports a hit
/// within a window, the ray pierces the object's box within that window.
pub open spec fn orderly<T: Hittable>(obj: T, ray: Ray) -> bool {
    &&& forall|lo: Scalar, hi: Scalar|
        (#[trigger] obj.hit_spec(ray, lo, hi)) matches Some(rec) ==> lo < rec.t < hi
    &&& forall|lo: Scalar, hi: Scalar, h: Scalar|
        h <= hi ==> #[trigger] obj.hit_spec(ray, lo, h) == below(
            #[trigger] obj.hit_spec(ray, lo, hi),
            h,
        )
    &&& forall|lo: Scalar, hi: Scalar|
        (#[trigger] obj.hit_spec(ray, lo, hi)) is Some ==> obj.bounding_box_spec().pierced_by::<T>(
            ray,
            Interval { min: lo, max: hi },
        )
}

/// The slab arithmetic of `T` is monotone: between planes further apart a
/// ray enters no later and leaves no sooner.
pub open spec fn slabs_widen<T: Hittable>() -> bool {
    forall|inner: Interval, outer: Interval, origin: Scalar, direction: Scalar|
        outer.includes(inner) ==> (#[trigger] T::slab_spec(outer, origin, direction)).includes(
            #[trigger] T::slab_spec(inner, origin, direction),
        )
}

/// `res` is a nearest report among the first `n` objects: one of them
/// reports it, and none reports anything nearer; or none reports anything.
pub open spec fn nearest_in_list<T: Hittable>(
    res: Option<HitRecord>,
    objects: Seq<T>,
    n: int,
    ray: Ray,
    lo: Scalar,
    hi: Scalar,
) -> bool {
    match res {
        None => forall|k: int| 0 <= k < n ==> (#[trigger] objects[k].hit_spec(ray, lo, hi)) is None,
        Some(rec) => {
            &&& exists|k: int| 0 <= k < n && #[trigger] objects[k].hit_spec(ray, lo, hi) == Some(rec)
            &&& forall|k: int|
                0 <= k < n ==> ((#[trigger] objects[k].hit_spec(ray, lo, hi)) matches Some(other)
                    ==> rec.t <= other.t)
        },
    }
}

/// `res` is a nearest report among the objects at the leaves of `tree`.
pub open spec fn nearest_in_tree<T: Hittable>(
    res: Option<HitRecord>,
    objects: Seq<T>,
    tree: BvhTree,
    ray: Ray,
    lo: Scalar,
    hi: Scalar,
) -> bool {
    match res {
        None => forall|k: int|
            tree.has_leaf(k) ==> (#[trigger] objects[k].hit_spec(ray, lo, hi)) is None,
        Some(rec) => {
            &&& exists|k: int| tree.has_leaf(k) && #[trigger] objects[k].hit_spec(ray, lo, hi) == Some(rec)
            &&& forall|k: int|
                tree.has_leaf(k) ==> ((#[trigger] objects[k].hit_spec(ray, lo, hi)) matches Some(
                    other,
                ) ==> rec.t <= other.t)
        },
    }
}

/// The box of a consistent tree includes the box of every object at its
/// leaves.
pub proof fn lemma_bounds_include(tree: BvhTree, boxes: Seq<AABB>, k: int)
    requires
        tree.consistent(boxes),
        tree.has_leaf(k),
    ensures
        0 <= k < boxes.len(),
        tree.bounds(boxes).includes(boxes[k]),
    decreases tree,
{
    match tree {
        BvhTree::Leaf(_) => {},
        BvhTree::Node { left, right, bbox } => {
            if left.has_leaf(k) {
                lemma_bounds_include(*left, boxes, k);
            } else {
                lemma_bounds_include(*right, boxes, k);
            }
        },
    }
}

/// A list of orderly objects reports a nearest hit among them.
pub proof fn lemma_list_finds_nearest<T: Hittable>(
    objects: Seq<T>,
    n: int,
    ray: Ray,
    lo: Scalar,
    hi: Scalar,
)
    requires
        0 <= n <= objects.len(),
        forall|k: int| 0 <= k < objects.len() ==> orderly(#[trigger] objects[k], ray),
    ensures
        nearest_in_list(nearest_of(objects, n, ray, lo, hi), objects, n, ray, lo, hi),
    decreases n,
{
    if n > 0 {
        lemma_list_finds_nearest(objects, n - 1, ray, lo, hi);
        let before = nearest_of(objects, n - 1, ray, lo, hi);
        let h = upper_after(before, hi);
        let last = objects[n - 1];
        assert(orderly(last, ray));
        let full = last.hit_spec(ray, lo, hi);
        let cur = last.hit_spec(ray, lo, h);
        let res = nearest_of(objects, n, ray, lo, hi);
        if let Some(b) = before {
            let kb = choose|k: int|
                0 <= k < n - 1 && #[trigger] objects[k].hit_spec(ray, lo, hi) == Some(b);
            assert(orderly(objects[kb], ray));
            assert(b.t < hi);
        }
        assert(h <= hi);
        assert(cur == below(full, h));
        match cur {
            Some(rec) => {
                assert(full == Some(rec));
                assert(objects[n - 1].hit_spec(ray, lo, hi) == Some(rec));
                assert forall|k: int| 0 <= k < n implies ((#[trigger] objects[k].hit_spec(
                    ray,
                    lo,
                    hi,
                )) matches Some(other) ==> rec.t <= other.t) by {
                    if k < n - 1 {
                        if let Some(other) = objects[k].hit_spec(ray, lo, hi) {
                            assert(before is Some);
                        }
                    }
                }
            },
            None => {
                match before {
                    Some(b) => {
                        let kb = choose|k: int|
                            0 <= k < n - 1 && #[trigger] objects[k].hit_spec(ray, lo, hi) == Some(b);
                        assert(0 <= kb < n && objects[kb].hit_spec(ray, lo, hi) == Some(b));
                    },
                    None => {
                        assert(full is None);
                    },
                }
            },
        }
    }
}

/// A consistent tree over orderly objects, whose slab arithmetic is
/// monotone, reports a nearest hit among the objects at its leaves: culling
/// by boxes loses nothing.
pub proof fn lemma_tree_finds_nearest<T: Hittable>(
    tree: BvhTree,
    objects: Seq<T>,
    ray: Ray,
    lo: Scalar,
    hi: Scalar,
)
    requires
        tree.consistent(boxes_of(objects)),
        slabs_widen::<T>(),
        forall|k: int| 0 <= k < objects.len() ==> orderly(#[trigger] objects[k], ray),
    ensures
        nearest_in_tree(tree_hit(tree, objects, ray, lo, hi), objects, tree, ray, lo, hi),
    decreases tree,
{
    let boxes = boxes_of(objects);
    match tree {
        BvhTree::Leaf(n) => {},
        BvhTree::Node { left, right, bbox } => {
            let w = Interval { min: lo, max: hi };
            if !bbox.pierced_by::<T>(ray, w) {
                assert forall|k: int| tree.has_leaf(k) implies (#[trigger] objects[k].hit_spec(
                    ray,
                    lo,
                    hi,
                )) is None by {
                    lemma_bounds_include(tree, boxes, k);
                    assert(orderly(objects[k], ray));
                    if objects[k].hit_spec(ray, lo, hi) is Some {
                        let inner = objects[k].bounding_box_spec();
                        assert(inner == boxes[k]);
                        assert(inner.pierced_by::<T>(ray, w));
                        assert(bbox.includes(inner));
                        crate::aabb::lemma_hit_monotone_in_slabs(
                            inner.slab_of::<T>(ray, 0),
                            inner.slab_of::<T>(ray, 1),
                            inner.slab_of::<T>(ray, 2),
                            bbox.slab_of::<T>(ray, 0),
                            bbox.slab_of::<T>(ray, 1),
                            bbox.slab_of::<T>(ray, 2),
                            w,
                        );
                    }
                }
            } else {
                lemma_tree_finds_nearest(*left, objects, ray, lo, hi);
                let hit_left = tree_hit(*left, objects, ray, lo, hi);
                let h = upper_after(hit_left, hi);
                lemma_tree_finds_nearest(*right, objects, ray, lo, h);
                let hit_right = tree_hit(*right, objects, ray, lo, h);
                if let Some(l) = hit_left {
                    let kl = choose|k: int|
                        left.has_leaf(k) && #[trigger] objects[k].hit_spec(ray, lo, hi) == Some(l);
                    lemma_bounds_include(*left, boxes, kl);
                    assert(orderly(objects[kl], ray));
                    assert(l.t < hi);
                    assert(tree.has_leaf(kl));
                }
                assert(h <= hi);
                assert forall|k: int| right.has_leaf(k) implies #[trigger] objects[k].hit_spec(
                    ray,
                    lo,
                    h,
                ) == below(objects[k].hit_spec(ray, lo, hi), h) by {
                    lemma_bounds_include(*right, boxes, k);
                    assert(orderly(objects[k], ray));
                }
                match hit_right {
                    Some(r) => {
                        let kr = choose|k: int|
                            right.has_leaf(k) && #[trigger] objects[k].hit_spec(ray, lo, h) == Some(r);
                        assert(objects[kr].hit_spec(ray, lo, hi) == Some(r));
                        assert(tree.has_leaf(kr));
                        assert(r.t < h);
                        assert forall|k: int| tree.has_leaf(k) implies ((
                        #[trigger] objects[k].hit_spec(ray, lo, hi)) matches Some(other) ==> r.t
                            <= other.t) by {
                            if let Some(other) = objects[k].hit_spec(ray, lo, hi) {
                                if left.has_leaf(k) {
                                    assert(hit_left is Some);
                                } else {
                                    assert(right.has_leaf(k));
                                    assert(objects[k].hit_spec(ray, lo, h) == below(
                                        Some(other),
                                        h,
                                    ));
                                }
                            }
                        }
                    },
                    None => {
                        assert forall|k: int| right.has_leaf(k) implies (match objects[k].hit_spec(
                            ray,
                            lo,
                            hi,
                        ) {
                            Some(other) => h <= other.t,
                            None => true,
                        }) by {
                            assert(objects[k].hit_spec(ray, lo, h) is None);
                            assert(objects[k].hit_spec(ray, lo, h) == below(
                                objects[k].hit_spec(ray, lo, hi),
                                h,
                            ));
                        }
                        match hit_left {
                            Some(l) => {
                                assert forall|k: int| tree.has_leaf(k) implies ((
                                #[trigger] objects[k].hit_spec(ray, lo, hi)) matches Some(other)
                                    ==> l.t <= other.t) by {
                                    if !left.has_leaf(k) {
                                        assert(right.has_leaf(k));
                                    }
                                }
                            },
                            None => {
                                assert forall|k: int| tree.has_leaf(k) implies (
                                #[trigger] objects[k].hit_spec(ray, lo, hi)) is None by {
                                    if !left.has_leaf(k) {
                                        assert(right.has_leaf(k));
                                        lemma_bounds_include(*right, boxes, k);
                                        assert(orderly(objects[k], ray));
                                    }
                                }
                            },
                        }
                    },
                }
            }
        },
    }
}

/// A hierarchy finds what the list of its objects finds: for every ray and
/// every window, both report a hit at the same ray parameter, or both
/// report none. It holds of objects that are orderly for the ray, under
/// slab arithmetic that is monotone.
pub proof fn lemma_bvh_fidelity<T: Hittable>(
    bvh: BvhNode<T>,
    list: Hittables<T>,
    ray: Ray,
    lo: Scalar,
    hi: Scalar,
)
    requires
        bvh.wf(),
        bvh@ == list@,
        slabs_widen::<T>(),
        forall|k: int| 0 <= k < list@.len() ==> orderly(#[trigger] list@[k], ray),
    ensures
        parameter(bvh.hit_spec(ray, lo, hi)) == parameter(list.hit_spec(ray, lo, hi)),
{
    let objects = list@;
    let n = objects.len() as int;
    let tree = bvh.tree();
    bvh.lemma_wf();
    lemma_list_finds_nearest(objects, n, ray, lo, hi);
    lemma_tree_finds_nearest(tree, objects, ray, lo, hi);
    let from_list = list.hit_spec(ray, lo, hi);
    let from_tree = bvh.hit_spec(ray, lo, hi);
    match from_tree {
        Some(t) => {
            let kt = choose|k: int|
                tree.has_leaf(k) && #[trigger] objects[k].hit_spec(ray, lo, hi) == Some(t);
            lemma_bounds_include(tree, boxes_of(objects), kt);
            assert(objects[kt].hit_spec(ray, lo, hi) is Some);
            match from_list {
                Some(l) => {
                    let kl = choose|k: int|
                        0 <= k < n && #[trigger] objects[k].hit_spec(ray, lo, hi) == Some(l);
                    assert(tree.has_leaf(kl));
                },
                None => {},
            }
        },
        None => {
            match from_list {
                Some(l) => {
                    let kl = choose|k: int|
                        0 <= k < n && #[trigger] objects[k].hit_spec(ray, lo, hi) == Some(l);
                    assert(tree.has_leaf(kl));
                },
                None => {},
            }
        },
    }
}

/// No two objects report a hit at the same ray parameter.
pub open spec fn untied<T: Hittable>(objects: Seq<T>, ray: Ray, lo: Scalar, hi: Scalar) -> bool {
    forall|j: int, k: int|
        0 <= j < objects.len() && 0 <= k < objects.len() && j != k ==> parameter(
            #[trigger] objects[j].hit_spec(ray, lo, hi),
        ) is None || parameter(objects[j].hit_spec(ray, lo, hi)) != parameter(
            #[trigger] objects[k].hit_spec(ray, lo, hi),
        )
}

/// Where no two objects are hit at the same ray parameter, a hierarchy
/// reports the very record that the list of its objects reports: the same
/// point, normal, side and material.
pub proof fn lemma_bvh_fidelity_untied<T: Hittable>(
    bvh: BvhNode<T>,
    list: Hittables<T>,
    ray: Ray,
    lo: Scalar,
    hi: Scalar,
)
    requires
        bvh.wf(),
        bvh@ == list@,
        slabs_widen::<T>(),
        forall|k: int| 0 <= k < list@.len() ==> orderly(#[trigger] list@[k], ray),
        untied(list@, ray, lo, hi),
    ensures
        bvh.hit_spec(ray, lo, hi) == list.hit_spec(ray, lo, hi),
{
    let objects = list@;
    let n = objects.len() as int;
    let tree = bvh.tree();
    bvh.lemma_wf();
    lemma_bvh_fidelity(bvh, list, ray, lo, hi);
    lemma_list_finds_nearest(objects, n, ray, lo, hi);
    lemma_tree_finds_nearest(tree, objects, ray, lo, hi);
    if let Some(t) = bvh.hit_spec(ray, lo, hi) {
        let l = list.hit_spec(ray, lo, hi)->Some_0;
        let kt = choose|k: int|
            tree.has_leaf(k) && #[trigger] objects[k].hit_spec(ray, lo, hi) == Some(t);
        let kl = choose|k: int| 0 <= k < n && #[trigger] objects[k].hit_spec(ray, lo, hi) == Some(l);
        lemma_bounds_include(tree, boxes_of(objects), kt);
        assert(parameter(objects[kt].hit_spec(ray, lo, hi)) == parameter(
            objects[kl].hit_spec(ray, lo, hi),
        ));
        assert(kt == kl);
    }
}

} // verus!
