use rustfrc::NDArray;
use rustfrc::engine::run_chunk;
use rustfrc::Xoshiro256pp;
use rustfrc::binom_split;
use rustfrc::binom_split_det;

fn array(shape: Vec<usize>, data: Vec<i32>) -> NDArray<i32> {
    NDArray::new(shape, data).expect("shape and data must agree")
}

#[test]
fn test_binom_split_bounds() {
    let a = array(vec![4, 5], (0..20).collect());
    let input: Vec<i32> = (0..20).collect();
    let out = binom_split(a).expect("non-negative input must succeed");
    assert_eq!(out.shape, vec![4, 5]);
    assert_eq!(out.data.len(), 20);
    for (o, i) in out.data.iter().zip(input.iter()) {
        assert!(0 <= *o && *o <= *i);
    }
}

#[test]
fn test_binom_split_negative_fails() {
    let a = array(vec![5], vec![3, 1, -7, 2, -9]);
    let e = binom_split(a).expect_err("a negative element must fail");
    assert_eq!(e.offending_value, -7);
}

#[test]
fn test_binom_split_all_negative() {
    let a = array(vec![2], vec![-1, -2]);
    let e = binom_split(a).expect_err("negative elements must fail");
    assert_eq!(e.offending_value, -1);
}

#[test]
fn test_binom_split_empty() {
    let empty = array(vec![0], Vec::new());
    let out = binom_split(empty).expect("an empty array must succeed");
    assert_eq!(out.shape, vec![0]);
    assert!(out.data.is_empty());

    let empty_inner = array(vec![3, 0, 4], Vec::new());
    let out2 = binom_split(empty_inner).expect("a zero dimension must succeed");
    assert_eq!(out2.shape, vec![3, 0, 4]);
    assert!(out2.data.is_empty());
}

#[test]
fn test_binom_split_rank_agnostic() {
    // The same 64 values, reshaped across ranks 0 is covered separately;
    // here ranks 1 through 6 all succeed with the elementwise bound.
    let flat: Vec<i32> = (0..64).map(|i| (i * 7) % 23).collect();
    let shapes: Vec<Vec<usize>> = vec![
        vec![64],
        vec![8, 8],
        vec![4, 4, 4],
        vec![2, 4, 2, 4],
        vec![2, 2, 2, 2, 4],
        vec![2, 2, 2, 2, 2, 2],
    ];
    for shape in shapes {
        let a = array(shape.clone(), flat.clone());
        let out = binom_split(a).expect("reshaped non-negative data must succeed");
        assert_eq!(out.shape, shape);
        assert_eq!(out.data.len(), flat.len());
        for (o, i) in out.data.iter().zip(flat.iter()) {
            assert!(0 <= *o && *o <= *i);
        }
    }
}

#[test]
fn test_binom_split_rank_zero() {
    let a = array(Vec::new(), vec![100]);
    let out = binom_split(a).expect("a scalar array must succeed");
    assert!(out.shape.is_empty());
    assert_eq!(out.data.len(), 1);
    assert!(0 <= out.data[0] && out.data[0] <= 100);
}

#[test]
fn test_binom_split_ephemeral_streams_differ() {
    // Two throughput calls on the same input are seeded independently from
    // the operating system; identical outputs would mean the entropy seed
    // was not consulted at all.
    let data: Vec<i32> = vec![200; 256];
    let a = array(vec![16, 16], data.clone());
    let b = array(vec![16, 16], data);
    let out_a = binom_split(a).unwrap();
    let out_b = binom_split(b).unwrap();
    assert_ne!(out_a.data, out_b.data);
}

#[test]
fn test_binom_split_det_reproducible() {
    let seed: [u32; 8] = [11, 22, 33, 44, 55, 66, 77, 88];
    let data: Vec<i32> = (0..300).map(|i| (i * 13) % 101).collect();
    let a = array(vec![30, 10], data.clone());
    let b = array(vec![30, 10], data.clone());
    let out_a = binom_split_det(a, &seed, 4).unwrap();
    let out_b = binom_split_det(b, &seed, 4).unwrap();
    assert_eq!(out_a.data, out_b.data);
    assert_eq!(out_a.shape, out_b.shape);
    for (o, i) in out_a.data.iter().zip(data.iter()) {
        assert!(0 <= *o && *o <= *i);
    }
}

#[test]
fn test_binom_split_det_seed_matters() {
    let seed_a: [u32; 8] = [1, 2, 3, 4, 5, 6, 7, 8];
    let seed_b: [u32; 8] = [8, 7, 6, 5, 4, 3, 2, 1];
    let data: Vec<i32> = vec![500; 200];
    let a = binom_split_det(array(vec![200], data.clone()), &seed_a, 50).unwrap();
    let b = binom_split_det(array(vec![200], data), &seed_b, 50).unwrap();
    assert_ne!(a.data, b.data);
}

#[test]
fn test_binom_split_det_negative_fails() {
    let seed: [u32; 8] = [9; 8];
    let a = array(vec![2, 2], vec![5, -1, 6, -2]);
    let e = binom_split_det(a, &seed, 50).expect_err("negative elements must fail");
    assert_eq!(e.offending_value, -1);
}

#[test]
fn test_binom_split_det_chunked_composition() {
    // Chunk identity is a function of position: processing the same data
    // with the same seed must give the same leading chunk whatever the
    // data that follows it, because later chunks use later streams.
    let seed: [u32; 8] = [3, 14, 15, 92, 65, 35, 89, 79];
    let long: Vec<i32> = (0..100).map(|i| 40 + (i % 17)).collect();
    let short: Vec<i32> = long[..50].to_vec();
    // chunk_rows 5 on a 10-wide array: 50 elements per chunk.
    let out_long = binom_split_det(array(vec![10, 10], long), &seed, 5).unwrap();
    let out_short = binom_split_det(array(vec![5, 10], short), &seed, 5).unwrap();
    assert_eq!(&out_long.data[..50], &out_short.data[..]);
}

#[test]
fn test_binom_split_large_uniform() {
    // A moderately large uniform array: every output element must stay
    // within 0..=200, and with tens of thousands of fair 200-trial draws
    // at least one must land strictly inside the bounds.
    let data: Vec<i32> = vec![200; 40_000];
    let a = array(vec![200, 200], data);
    let out = binom_split(a).unwrap();
    assert_eq!(out.data.len(), 40_000);
    assert!(out.data.iter().all(|&v| 0 <= v && v <= 200));
    assert!(out.data.iter().any(|&v| 0 < v && v < 200));
}

#[test]
fn test_xoshiro_from_seed_layout() {
    let seed: [u32; 8] = [0, 1, 0, 2, 0, 3, 1, 0];
    let g = Xoshiro256pp::from_seed(&seed);
    assert_eq!(g.s0, 1);
    assert_eq!(g.s1, 2);
    assert_eq!(g.s2, 3);
    assert_eq!(g.s3, 1u64 << 32);
}

#[test]
fn test_xoshiro_deterministic() {
    let seed: [u32; 8] = [1, 2, 3, 4, 5, 6, 7, 8];
    let mut a = Xoshiro256pp::from_seed(&seed);
    let mut b = Xoshiro256pp::from_seed(&seed);
    let draws_a: Vec<u64> = (0..16).map(|_| a.next()).collect();
    let draws_b: Vec<u64> = (0..16).map(|_| b.next()).collect();
    assert_eq!(draws_a, draws_b);
    assert!(draws_a.windows(2).any(|w| w[0] != w[1]));
}

#[test]
fn test_xoshiro_jump_deterministic() {
    let seed: [u32; 8] = [1, 2, 3, 4, 5, 6, 7, 8];
    let mut a = Xoshiro256pp::from_seed(&seed);
    let mut b = Xoshiro256pp::from_seed(&seed);
    let mut before = a;
    a.jump();
    b.jump();
    assert_eq!(a, b);
    assert_ne!(a, before);
    assert_ne!(a.next(), before.next());
}

#[test]
fn test_run_chunk_reassembles_det_result() {
    // What a parallel worker computes for chunk c — a clean run over its
    // slice with the root stream jumped c times — reassembles, in index
    // order, into exactly the seeded transform's output.
    let seed: [u32; 8] = [5, 4, 3, 2, 1, 0, 9, 8];
    let data: Vec<i32> = (0..70).map(|i| 10 + (i % 29)).collect();
    let chunk_rows = 2usize; // shape [7, 10]: 20 elements per chunk
    let ce = 20usize;
    let whole = binom_split_det(array(vec![7, 10], data.clone()), &seed, chunk_rows).unwrap();

    let mut rebuilt: Vec<i32> = Vec::new();
    let mut c = 0usize;
    while c * ce < data.len() {
        let start = c * ce;
        let end = usize::min(start + ce, data.len());
        let mut stream = Xoshiro256pp::from_seed(&seed);
        for _ in 0..c {
            stream.jump();
        }
        let (vals, flag) = run_chunk(&data, start, end, &mut stream);
        assert!(flag.is_none());
        rebuilt.extend_from_slice(&vals);
        c += 1;
    }
    assert_eq!(rebuilt, whole.data);
}
