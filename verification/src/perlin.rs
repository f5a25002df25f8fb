//! The lattice of a gradient noise field.
//!
//! The field is a table of 256 vectors and three permutations of the
//! numbers 0 to 255, one per axis. A lattice point is hashed to a vector of
//! the table by looking its three coordinates up, modulo 256, in the three
//! permutations and combining what comes out with exclusive or. Blending
//! the eight vectors around a sample is arithmetic, and the caller's.

use vstd::prelude::*;
use crate::utils::{Rng, advanced, ranged};
use crate::vec3::Vec3;

verus! {

/// The size of the table and of each permutation.
pub const POINT_COUNT: usize = 256;

/// The numbers `0` to `n - 1` in their order.
pub open spec fn ascending(n: nat) -> Seq<i32> {
    Seq::new(n, |i: int| i as i32)
}

/// `s` with the items at `i` and `j` exchanged.
pub open spec fn exchanged(s: Seq<i32>, i: int, j: int) -> Seq<i32> {
    s.update(i, s[j]).update(j, s[i])
}

/// What the shuffle makes of `p` when its positions `i`, `i - 1`, ..., 1 are
/// still to be visited and the generator is in state `rng`: each position in
/// turn is exchanged with one drawn from itself and those below it.
pub open spec fn shuffled(p: Seq<i32>, i: int, rng: u64) -> (Seq<i32>, u64)
    decreases i,
{
    if i < 1 {
        (p, rng)
    } else {
        let next = advanced(rng);
        shuffled(exchanged(p, i, ranged(next, 0, i + 1)), i - 1, next)
    }
}

/// The point of the period-256 lattice on which the coordinate `c` falls.
pub open spec fn wrapped(c: int) -> int {
    c % 256
}

pub struct Perlin {
    ranvec: Vec<Vec3>,
    perm_x: Vec<i32>,
    perm_y: Vec<i32>,
    perm_z: Vec<i32>,
}

impl Perlin {
    /// The table and the permutations have 256 entries each, and every
    /// entry of a permutation is an index into the table.
    #[verifier::type_invariant]
    pub closed spec fn wf(self) -> bool {
        &&& self.ranvec@.len() == 256
        &&& self.perm_x@.len() == 256
        &&& self.perm_y@.len() == 256
        &&& self.perm_z@.len() == 256
        &&& forall|k: int| 0 <= k < 256 ==> 0 <= #[trigger] self.perm_x@[k] < 256
        &&& forall|k: int| 0 <= k < 256 ==> 0 <= #[trigger] self.perm_y@[k] < 256
        &&& forall|k: int| 0 <= k < 256 ==> 0 <= #[trigger] self.perm_z@[k] < 256
    }

    /// The table of vectors.
    pub closed spec fn table(self) -> Seq<Vec3> {
        self.ranvec@
    }

    /// The permutation of axis `n`: 1 is y, 2 is z, anything else is x.
    pub closed spec fn perm(self, n: int) -> Seq<i32> {
        if n == 1 {
            self.perm_y@
        } else if n == 2 {
            self.perm_z@
        } else {
            self.perm_x@
        }
    }

    /// The index into the table to which the lattice point `(i, j, k)` is
    /// hashed.
    pub open spec fn hashed(self, i: int, j: int, k: int) -> int {
        (self.perm(0)[wrapped(i)] ^ self.perm(1)[wrapped(j)] ^ self.perm(2)[wrapped(k)]) as int
    }

    /// A noise field over the given table of 256 vectors, with three
    /// permutations drawn from `rng`: first that of x, then y, then z.
    pub fn new(ranvec: Vec<Vec3>, rng: &mut Rng) -> (r: Self)
        requires
            ranvec@.len() == POINT_COUNT,
        ensures
            r.table() == ranvec@,
            r.perm(0) == shuffled(ascending(256), 255, old(rng)@).0,
            r.perm(1) == shuffled(ascending(256), 255, shuffled(ascending(256), 255, old(rng)@).1).0,
            r.perm(2) == shuffled(
                ascending(256),
                255,
                shuffled(ascending(256), 255, shuffled(ascending(256), 255, old(rng)@).1).1,
            ).0,
            final(rng)@ == shuffled(
                ascending(256),
                255,
                shuffled(ascending(256), 255, shuffled(ascending(256), 255, old(rng)@).1).1,
            ).1,
            forall|n: int| 0 <= n < 3 ==> (#[trigger] r.perm(n)).to_multiset() == ascending(
                256,
            ).to_multiset(),
    {
        let perm_x = Self::perlin_generate_perm(rng);
        let perm_y = Self::perlin_generate_perm(rng);
        let perm_z = Self::perlin_generate_perm(rng);
        Perlin { ranvec, perm_x, perm_y, perm_z }
    }

    /// The table of vectors.
    pub fn ranvec(&self) -> (r: &Vec<Vec3>)
        ensures
            r@ == self.table(),
            r@.len() == 256,
    {
        proof {
            use_type_invariant(self);
        }
        &self.ranvec
    }

    /// The permutation of axis `n`.
    pub fn permutation(&self, n: u32) -> (r: &Vec<i32>)
        ensures
            r@ == self.perm(n as int),
            r@.len() == 256,
            forall|k: int| 0 <= k < 256 ==> 0 <= #[trigger] r@[k] < 256,
    {
        proof {
            use_type_invariant(self);
        }
        match n {
            1 => &self.perm_y,
            2 => &self.perm_z,
            _ => &self.perm_x,
        }
    }

    /// The vector of the table that belongs to the lattice point
    /// `(i, j, k)`.
    pub fn gradient(&self, i: i32, j: i32, k: i32) -> (r: Vec3)
        ensures
            0 <= self.hashed(i as int, j as int, k as int) < 256,
            r == self.table()[self.hashed(i as int, j as int, k as int)],
    {
        proof {
            use_type_invariant(self);
        }
        let a: u32 = self.perm_x[Self::wrap(i as i64)] as u32;
        let b: u32 = self.perm_y[Self::wrap(j as i64)] as u32;
        let c: u32 = self.perm_z[Self::wrap(k as i64)] as u32;
        let h: u32 = a ^ b ^ c;
        assert(h < 256) by (bit_vector)
            requires
                h == a ^ b ^ c,
                a < 256,
                b < 256,
                c < 256,
        ;
        assert(h == (self.perm_x@[wrapped(i as int)] ^ self.perm_y@[wrapped(j as int)]
            ^ self.perm_z@[wrapped(k as int)])) by {
            let pa = self.perm_x@[wrapped(i as int)];
            let pb = self.perm_y@[wrapped(j as int)];
            let pc = self.perm_z@[wrapped(k as int)];
            assert((pa ^ pb ^ pc) as u32 == (pa as u32) ^ (pb as u32) ^ (pc as u32)) by (bit_vector)
                requires
                    0 <= pa < 256,
                    0 <= pb < 256,
                    0 <= pc < 256,
            ;
            assert(0 <= (pa ^ pb ^ pc) < 256) by (bit_vector)
                requires
                    0 <= pa < 256,
                    0 <= pb < 256,
                    0 <= pc < 256,
            ;
        }
        self.ranvec[h as usize]
    }

    /// The eight vectors around a sample whose cell has its lowest corner
    /// at the lattice point `(i, j, k)`. The vector of the corner
    /// `(i + di, j + dj, k + dk)` stands at `4 * di + 2 * dj + dk`.
    pub fn lattice(&self, i: i32, j: i32, k: i32) -> (c: Vec<Vec3>)
        ensures
            c@.len() == 8,
            forall|di: int, dj: int, dk: int|
                0 <= di < 2 && 0 <= dj < 2 && 0 <= dk < 2 ==> #[trigger] c@[4 * di + 2 * dj + dk]
                    == self.table()[self.hashed(i + di, j + dj, k + dk)],
    {
        proof {
            use_type_invariant(self);
        }
        let mut c: Vec<Vec3> = Vec::new();
        let mut n: usize = 0;
        while n < 8
            invariant
                n <= 8,
                c@.len() == n,
                self.wf(),
                forall|m: int|
                    0 <= m < n ==> #[trigger] c@[m] == self.table()[self.hashed(
                        i + m / 4,
                        j + m / 2 % 2,
                        k + m % 2,
                    )],
            decreases 8 - n,
        {
            let di: i64 = (n / 4) as i64;
            let dj: i64 = (n / 2 % 2) as i64;
            let dk: i64 = (n % 2) as i64;
            let a: u32 = self.perm_x[Self::wrap(i as i64 + di)] as u32;
            let b: u32 = self.perm_y[Self::wrap(j as i64 + dj)] as u32;
            let cc: u32 = self.perm_z[Self::wrap(k as i64 + dk)] as u32;
            let h: u32 = a ^ b ^ cc;
            assert(h < 256) by (bit_vector)
                requires
                    h == a ^ b ^ cc,
                    a < 256,
                    b < 256,
                    cc < 256,
            ;
            proof {
                let pa = self.perm_x@[wrapped(i + di)];
                let pb = self.perm_y@[wrapped(j + dj)];
                let pc = self.perm_z@[wrapped(k + dk)];
                assert((pa ^ pb ^ pc) as u32 == (pa as u32) ^ (pb as u32) ^ (pc as u32))
                    by (bit_vector)
                    requires
                        0 <= pa < 256,
                        0 <= pb < 256,
                        0 <= pc < 256,
                ;
            }
            c.push(self.ranvec[h as usize]);
            n += 1;
        }
        assert forall|di: int, dj: int, dk: int|
            0 <= di < 2 && 0 <= dj < 2 && 0 <= dk < 2 implies #[trigger] c@[4 * di + 2 * dj + dk]
                == self.table()[self.hashed(i + di, j + dj, k + dk)] by {
            let m = 4 * di + 2 * dj + dk;
            assert(m / 4 == di && m / 2 % 2 == dj && m % 2 == dk);
        }
        c
    }

    /// The lattice point, as an index, on which the coordinate `c` falls.
    fn wrap(c: i64) -> (r: usize)
        requires
            -0x8000_0000 <= c <= 0x8000_0000,
        ensures
            r == wrapped(c as int),
            r < 256,
    {
        proof {
            vstd::arithmetic::div_mod::lemma_mod_multiples_vanish(0x80_0000, c as int, 256);
            assert(256 * 0x80_0000 + c == c + 0x8000_0000);
        }
        ((c + 0x8000_0000) % 256) as usize
    }

    /// A fresh permutation of the numbers 0 to 255.
    pub fn perlin_generate_perm(rng: &mut Rng) -> (p: Vec<i32>)
        ensures
            p@.len() == 256,
            (p@, final(rng)@) == shuffled(ascending(256), 255, old(rng)@),
            p@.to_multiset() == ascending(256).to_multiset(),
            forall|k: int| 0 <= k < 256 ==> 0 <= #[trigger] p@[k] < 256,
    {
        let mut p: Vec<i32> = Vec::new();
        let mut i: usize = 0;
        while i < POINT_COUNT
            invariant
                i <= 256,
                p@.len() == i,
                forall|k: int| 0 <= k < i ==> p@[k] == k,
            decreases 256 - i,
        {
            p.push(i as i32);
            i += 1;
        }
        assert(p@ =~= ascending(256));
        Self::permute(&mut p, POINT_COUNT, rng);
        proof {
            lemma_rearranged_in_range(p@);
        }
        p
    }

    /// Shuffles the first `n` items of `p`: from the last of them down to
    /// the second, each is exchanged with one drawn from itself and those
    /// before it.
    pub fn permute(p: &mut Vec<i32>, n: usize, rng: &mut Rng)
        requires
            n <= old(p)@.len(),
        ensures
            (final(p)@, final(rng)@) == shuffled(old(p)@, n - 1, old(rng)@),
            final(p)@.len() == old(p)@.len(),
            final(p)@.to_multiset() == old(p)@.to_multiset(),
    {
        if n < 2 {
            return ;
        }
        let mut i: usize = n - 1;
        while i >= 1
            invariant
                i < n <= p@.len(),
                p@.len() == old(p)@.len(),
                p@.to_multiset() == old(p)@.to_multiset(),
                shuffled(p@, i as int, rng@) == shuffled(old(p)@, n - 1, old(rng)@),
            decreases i,
        {
            let target = rng.random_range(0, i + 1);
            let ghost before = p@;
            let a = p[i];
            let b = p[target];
            p.set(i, b);
            p.set(target, a);
            proof {
                lemma_exchange_rearranges(before, i as int, target as int);
                assert(p@ == exchanged(before, i as int, target as int));
            }
            i -= 1;
        }
    }
}

/// Exchanging two items rearranges a sequence: every item is there as often
/// as before.
pub proof fn lemma_exchange_rearranges(s: Seq<i32>, i: int, j: int)
    requires
        0 <= i < s.len(),
        0 <= j < s.len(),
    ensures
        exchanged(s, i, j).to_multiset() == s.to_multiset(),
{
    crate::rearrange::lemma_exchange(s, i, j);
}

/// A rearrangement of the numbers 0 to 255 holds only such numbers.
pub proof fn lemma_rearranged_in_range(p: Seq<i32>)
    requires
        p.to_multiset() == ascending(256).to_multiset(),
    ensures
        p.len() == 256,
        forall|k: int| 0 <= k < p.len() ==> 0 <= #[trigger] p[k] < 256,
{
    broadcast use vstd::seq_lib::group_to_multiset_ensures;

    assert(p.len() == p.to_multiset().len());
    assert(ascending(256).len() == ascending(256).to_multiset().len());
    assert forall|k: int| 0 <= k < p.len() implies 0 <= #[trigger] p[k] < 256 by {
        assert(p.contains(p[k]));
        assert(p.to_multiset().count(p[k]) > 0);
        assert(ascending(256).contains(p[k]));
        let w = choose|w: int| 0 <= w < 256 && ascending(256)[w] == p[k];
    }
}

} // verus!
