use std::hash::{Hash, Hasher};
use worley_biomes::biome_picker::uniform_index;
use worley_biomes::distance_fn::DistanceFn;
use worley_biomes::hash_u64;
use worley_biomes::select::{select_k_nearest, survivors};
use worley_biomes::utils::combine_seed;
use worley_biomes::worley::{cell_point_fracs, neighbor_offset, NEIGHBOR_COUNT};

#[test]
fn hash_is_deterministic() {
    let a = hash_u64(12345, -7, 42);
    let b = hash_u64(12345, -7, 42);
    assert_eq!(a, b);
    let c = hash_u64(0, 0, 0);
    let d = hash_u64(0, 0, 0);
    assert_eq!(c, d);
}

#[test]
fn hash_matches_std_tuple_hashing() {
    // The hash is the standard hasher over the seed and both coordinates
    // written in order, exactly as hashing the tuple writes them.
    for (seed, x, z) in [(0u64, 0i32, 0i32), (12345, -7, 42), (u64::MAX, i32::MIN, i32::MAX)] {
        let mut hasher = std::collections::hash_map::DefaultHasher::new();
        (seed, x, z).hash(&mut hasher);
        assert_eq!(hash_u64(seed, x, z), hasher.finish());
    }
}

#[test]
fn hash_separates_nearby_inputs() {
    // Avalanche sanity: adjacent cells and adjacent seeds must not collide
    // on a small sample.
    let base = hash_u64(1, 0, 0);
    assert_ne!(base, hash_u64(1, 1, 0));
    assert_ne!(base, hash_u64(1, 0, 1));
    assert_ne!(base, hash_u64(1, -1, 0));
    assert_ne!(base, hash_u64(2, 0, 0));
    assert_ne!(hash_u64(1, 3, 5), hash_u64(1, 5, 3));
}

#[test]
fn cell_point_fracs_deterministic_and_axis_independent() {
    let (fx1, fz1) = cell_point_fracs(99, -3, 17);
    let (fx2, fz2) = cell_point_fracs(99, -3, 17);
    assert_eq!((fx1, fz1), (fx2, fz2));
    // The two axes use distinct seed offsets; on a sample they differ.
    let mut any_differ = false;
    for c in 0..16 {
        let (fx, fz) = cell_point_fracs(7, c, -c);
        if fx != fz {
            any_differ = true;
        }
    }
    assert!(any_differ);
}

#[test]
fn neighborhood_is_the_three_by_three_square_in_fixed_order() {
    assert_eq!(NEIGHBOR_COUNT, 9);
    let expected = [
        (-1, -1),
        (-1, 0),
        (-1, 1),
        (0, -1),
        (0, 0),
        (0, 1),
        (1, -1),
        (1, 0),
        (1, 1),
    ];
    for i in 0..9 {
        assert_eq!(neighbor_offset(i), expected[i]);
    }
}

#[test]
fn uniform_index_stays_below_count_and_is_deterministic() {
    for x in -20..20 {
        for z in -20..20 {
            let i = uniform_index(5, x, z, 7);
            assert!(i < 7);
            assert_eq!(i, uniform_index(5, x, z, 7));
        }
    }
    // A single variant always wins.
    assert_eq!(uniform_index(123, 4, -9, 1), 0);
}

#[test]
fn uniform_index_frequencies_approach_uniform_over_four_labels() {
    // Over a large sample of distinct cells the four labels come out at
    // roughly a quarter each.
    let mut counts = [0usize; 4];
    let n: i32 = 200;
    for x in -n..n {
        for z in -n..n {
            counts[uniform_index(2024, x, z, 4)] += 1;
        }
    }
    let total = (2 * n as usize) * (2 * n as usize);
    for &c in &counts {
        let freq = c as f64 / total as f64;
        assert!(
            (freq - 0.25).abs() < 0.01,
            "label frequency {freq} strays from uniform"
        );
    }
}

#[test]
fn select_k_nearest_picks_smallest_in_order() {
    let dists: Vec<u64> = vec![5, 3, 8, 1];
    assert_eq!(select_k_nearest(&dists, 2), vec![3, 1]);
    assert_eq!(select_k_nearest(&dists, 4), vec![3, 1, 0, 2]);
}

#[test]
fn select_k_nearest_breaks_ties_by_slot_order() {
    let dists: Vec<u64> = vec![2, 2, 1, 2];
    assert_eq!(select_k_nearest(&dists, 3), vec![2, 0, 1]);
    let equal: Vec<u64> = vec![4, 4, 4];
    assert_eq!(select_k_nearest(&equal, 2), vec![0, 1]);
}

#[test]
fn select_k_nearest_caps_k_at_the_candidate_count() {
    let dists: Vec<u64> = vec![9, 7, 8];
    assert_eq!(select_k_nearest(&dists, 9), vec![1, 2, 0]);
    assert_eq!(select_k_nearest(&dists, 3), vec![1, 2, 0]);
}

#[test]
fn select_k_nearest_orders_float_keys_like_total_cmp() {
    // The caller maps non-negative f64 distances to their bit patterns;
    // that mapping must rank keys exactly as the numbers rank.
    let floats: Vec<f64> = vec![2.5, 0.0, 1.0e-12, 97.25, 2.5, 0.125];
    let keys: Vec<u64> = floats.iter().map(|d| d.to_bits()).collect();
    let picked = select_k_nearest(&keys, 6);
    let mut expect: Vec<usize> = (0..floats.len()).collect();
    expect.sort_by(|&a, &b| floats[a].total_cmp(&floats[b]).then(a.cmp(&b)));
    assert_eq!(picked, expect);
    assert_eq!(picked[0], 1);
}

#[test]
fn survivors_keeps_entries_strictly_above_threshold() {
    let w: Vec<u64> = vec![10, 5, 20];
    assert_eq!(survivors(&w, 6), vec![0, 2]);
    assert_eq!(survivors(&w, 0), vec![0, 1, 2]);
    // Equality with the threshold does not survive.
    assert_eq!(survivors(&vec![10, 20], 10), vec![1]);
}

#[test]
fn survivors_falls_back_to_the_single_heaviest_entry() {
    let w: Vec<u64> = vec![10, 5, 20];
    assert_eq!(survivors(&w, 50), vec![2]);
    // Ties on the maximum keep the first slot.
    assert_eq!(survivors(&vec![7, 9, 9], 100), vec![1]);
    assert_eq!(survivors(&vec![4], 4), vec![0]);
}

#[test]
fn combine_seed_folds_both_coordinates() {
    assert_eq!(combine_seed(5, 1, 2), 0x0000000100000007);
    assert_eq!(combine_seed(0, -1, 0), 0xFFFFFFFF00000000);
    assert_eq!(combine_seed(0, 0, -1), 0xFFFFFFFFFFFFFFFF);
    assert_eq!(combine_seed(0xDEAD, 0, 0), 0xDEAD);
    // Different cells give different generator seeds.
    assert_ne!(combine_seed(9, 1, 2), combine_seed(9, 2, 1));
}

#[test]
fn default_distance_policy_is_euclidean_squared() {
    assert_eq!(DistanceFn::default(), DistanceFn::EuclideanSquared);
}

#[test]
fn raising_the_threshold_never_lengthens_the_result() {
    let w: Vec<u64> = vec![13, 2, 40, 40, 7, 0, 25];
    let mut prev_len = usize::MAX;
    for t in [0u64, 1, 2, 7, 13, 25, 39, 40, 41, 1000] {
        let len = survivors(&w, t).len();
        assert!(len <= prev_len, "length grew when threshold rose to {t}");
        assert!((1..=w.len()).contains(&len));
        prev_len = len;
    }
}
