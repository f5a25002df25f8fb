use raytracer::perlin::{Perlin, POINT_COUNT};
use raytracer::utils::Rng;
use raytracer::vec3::Vec3;

fn table() -> Vec<Vec3> {
    let mut t = Vec::new();
    for i in 0..256 {
        t.push(Vec3::new(i, 1000 + i, 2000 + i));
    }
    t
}

fn is_permutation(p: &Vec<i32>) -> bool {
    let mut seen = vec![false; 256];
    for v in p {
        if *v < 0 || *v >= 256 || seen[*v as usize] {
            return false;
        }
        seen[*v as usize] = true;
    }
    p.len() == 256
}

#[test]
fn rng_draws_the_splitmix_sequence() {
    let mut a = Rng::new(0);
    assert_eq!(a.next_u64(), 0xe220a8397b1dcdaf);
    assert_eq!(a.next_u64(), 0x6e789e6aa1b965f4);
    assert_eq!(a.next_u64(), 0x06c45d188009454f);
    let mut b = Rng::new(1234567);
    assert_eq!(b.next_u64(), 6457827717110365317);
    assert_eq!(b.next_u64(), 3203168211198807973);
    assert_eq!(b.next_u64(), 9817491932198370423);
}

#[test]
fn rng_state_advances_by_the_golden_gamma() {
    let mut a = Rng::new(5);
    assert_eq!(a.state(), 5);
    a.next_u64();
    assert_eq!(a.state(), 5u64.wrapping_add(0x9e3779b97f4a7c15));
    let mut b = Rng::new(u64::MAX);
    b.random_range(0, 10);
    assert_eq!(b.state(), 0x9e3779b97f4a7c14);
}

#[test]
fn random_range_is_the_word_reduced_into_the_range() {
    let mut a = Rng::new(42);
    assert_eq!(a.random_range(0, 3), 1);
    assert_eq!(a.random_range(10, 20), 11);
    let mut b = Rng::new(0);
    assert_eq!(b.random_range(7, 8), 7);
}

#[test]
fn random_range_stays_in_range_and_reaches_all_of_it() {
    let mut rng = Rng::new(2024);
    let mut seen = [false; 3];
    for _ in 0..200 {
        let r = rng.random_range(0, 3);
        assert!(r < 3);
        seen[r] = true;
    }
    assert!(seen[0] && seen[1] && seen[2]);
    for _ in 0..200 {
        let r = rng.random_range(100, 105);
        assert!(100 <= r && r < 105);
    }
}

#[test]
fn generated_permutation_holds_each_number_once() {
    let mut rng = Rng::new(1);
    let p = Perlin::perlin_generate_perm(&mut rng);
    assert!(is_permutation(&p));
    let q = Perlin::perlin_generate_perm(&mut rng);
    assert!(is_permutation(&q));
    assert_ne!(p, q);
    let identity: Vec<i32> = (0..256).collect();
    assert_ne!(p, identity);
}

#[test]
fn permute_follows_the_draws() {
    let mut p: Vec<i32> = vec![10, 20, 30, 40];
    let mut rng = Rng::new(42);
    let mut twin = Rng::new(42);
    let mut expected = p.clone();
    for i in (1..4).rev() {
        let target = twin.random_range(0, i + 1);
        expected.swap(i, target);
    }
    Perlin::permute(&mut p, 4, &mut rng);
    assert_eq!(p, expected);
    assert_eq!(rng.state(), twin.state());
}

#[test]
fn permute_rearranges_and_may_leave_an_item_in_place() {
    let mut p: Vec<i32> = (0..50).collect();
    let mut rng = Rng::new(9);
    Perlin::permute(&mut p, 50, &mut rng);
    let mut sorted = p.clone();
    sorted.sort();
    assert_eq!(sorted, (0..50).collect::<Vec<i32>>());
    assert_ne!(p, (0..50).collect::<Vec<i32>>());
    let mut kept = 0;
    let mut exchanged = 0;
    for seed in 0..200 {
        let mut pair: Vec<i32> = vec![0, 1];
        Perlin::permute(&mut pair, 2, &mut Rng::new(seed));
        if pair == vec![0, 1] {
            kept += 1;
        } else {
            assert_eq!(pair, vec![1, 0]);
            exchanged += 1;
        }
    }
    assert!(kept > 50 && exchanged > 50);
}

#[test]
fn permute_reaches_every_arrangement_of_three() {
    let mut seen = std::collections::BTreeSet::new();
    for seed in 0..300 {
        let mut p: Vec<i32> = vec![0, 1, 2];
        Perlin::permute(&mut p, 3, &mut Rng::new(seed));
        seen.insert(p);
    }
    assert_eq!(seen.len(), 6);
}

#[test]
fn permute_leaves_the_tail_and_short_runs_alone() {
    let mut p: Vec<i32> = vec![1, 2, 3, 4, 5, 6];
    let mut rng = Rng::new(3);
    Perlin::permute(&mut p, 3, &mut rng);
    assert_eq!(&p[3..], &[4, 5, 6]);
    let mut q: Vec<i32> = vec![7, 8];
    let before = rng.state();
    Perlin::permute(&mut q, 1, &mut rng);
    assert_eq!(q, vec![7, 8]);
    Perlin::permute(&mut q, 0, &mut rng);
    assert_eq!(q, vec![7, 8]);
    assert_eq!(rng.state(), before);
}

#[test]
fn perlin_new_draws_three_permutations_in_turn() {
    let mut rng = Rng::new(77);
    let mut twin = Rng::new(77);
    let noise = Perlin::new(table(), &mut rng);
    let px = Perlin::perlin_generate_perm(&mut twin);
    let py = Perlin::perlin_generate_perm(&mut twin);
    let pz = Perlin::perlin_generate_perm(&mut twin);
    assert_eq!(*noise.permutation(0), px);
    assert_eq!(*noise.permutation(1), py);
    assert_eq!(*noise.permutation(2), pz);
    assert_eq!(rng.state(), twin.state());
    assert_eq!(*noise.ranvec(), table());
    assert_eq!(POINT_COUNT, 256);
    assert_eq!(noise.ranvec().len(), POINT_COUNT);
}

#[test]
fn gradient_hashes_the_lattice_point() {
    let mut rng = Rng::new(5);
    let noise = Perlin::new(table(), &mut rng);
    let px = noise.permutation(0).clone();
    let py = noise.permutation(1).clone();
    let pz = noise.permutation(2).clone();
    for (i, j, k) in [(0, 0, 0), (1, 2, 3), (255, 256, 257), (-1, -256, -257), (i32::MAX, i32::MIN, 1000)] {
        let h = px[(i & 255) as usize] ^ py[(j & 255) as usize] ^ pz[(k & 255) as usize];
        assert_eq!(noise.gradient(i, j, k), table()[h as usize]);
    }
}

#[test]
fn lattice_holds_the_eight_corners() {
    let mut rng = Rng::new(6);
    let noise = Perlin::new(table(), &mut rng);
    for (i, j, k) in [(0, 0, 0), (-5, 17, 255), (i32::MAX, i32::MAX, i32::MAX), (i32::MIN, -1, 0)] {
        let c = noise.lattice(i, j, k);
        assert_eq!(c.len(), 8);
        for di in 0..2 {
            for dj in 0..2 {
                for dk in 0..2 {
                    let expected = noise.gradient(
                        i.wrapping_add(di),
                        j.wrapping_add(dj),
                        k.wrapping_add(dk),
                    );
                    assert_eq!(c[(4 * di + 2 * dj + dk) as usize], expected);
                }
            }
        }
    }
}
