use ndarray_rand::rand::thread_rng;
use ndarray_rand::rand_distr::Distribution;
use ndarray_rand::rand_distr::Poisson;

use rustfrc::Complex;
use rustfrc::NDArray;
use rustfrc::RealBits;
use rustfrc::TimePassed;
use rustfrc::pois_plan;
use rustfrc::sqr_abs;
use rustfrc::to_i32;

fn bits_of(x: f64) -> RealBits {
    RealBits::new(x.to_bits())
}

#[test]
fn test_ndarray_new() {
    assert!(NDArray::new(vec![2, 3], vec![0i32; 6]).is_some());
    assert!(NDArray::new(vec![2, 3], vec![0i32; 5]).is_none());
    assert!(NDArray::new(vec![0], Vec::<i32>::new()).is_some());
    assert!(NDArray::new(vec![4, 0, 9], Vec::<i32>::new()).is_some());
    // A scalar: the empty shape holds exactly one element.
    assert!(NDArray::new(Vec::new(), vec![1i32]).is_some());
    assert!(NDArray::new(Vec::new(), Vec::<i32>::new()).is_none());
    let a = NDArray::new(vec![3, 2], vec![1i32, 2, 3, 4, 5, 6]).unwrap();
    assert_eq!(a.len(), 6);
    assert_eq!(a.shape, vec![3, 2]);
    assert_eq!(a.data, vec![1, 2, 3, 4, 5, 6]);
}

#[test]
fn test_pois_plan_rejects_bad_lambda() {
    let shape = vec![2, 2];
    assert!(pois_plan(&shape, bits_of(f64::NAN)).is_err());
    assert!(pois_plan(&shape, bits_of(f64::INFINITY)).is_err());
    assert!(pois_plan(&shape, bits_of(f64::NEG_INFINITY)).is_err());
    assert!(pois_plan(&shape, bits_of(0.0)).is_err());
    assert!(pois_plan(&shape, bits_of(-0.0)).is_err());
    assert!(pois_plan(&shape, bits_of(-3.5)).is_err());
}

#[test]
fn test_pois_plan_accepts_positive_lambda() {
    let shape = vec![3, 4, 2];
    assert_eq!(pois_plan(&shape, bits_of(3.5)).unwrap(), 24);
    assert_eq!(pois_plan(&shape, bits_of(f64::MIN_POSITIVE)).unwrap(), 24);
    assert_eq!(pois_plan(&vec![5, 0], bits_of(200.0)).unwrap(), 0);
    assert_eq!(pois_plan(&Vec::new(), bits_of(1.0)).unwrap(), 1);
}

#[test]
fn test_pois_generation_through_plan() {
    // The full generation path: plan validates the rate and fixes the
    // element count, the sampler fills, the array constructor checks the
    // shape. Poisson draws are non-negative counts by construction.
    let shape = vec![6, 7];
    let n = pois_plan(&shape, bits_of(200.0)).unwrap();
    assert_eq!(n, 42);
    let dist = Poisson::new(200.0f64).unwrap();
    let mut rng = thread_rng();
    let mut draws: Vec<u64> = Vec::with_capacity(n);
    for _ in 0..n {
        let d: f64 = dist.sample(&mut rng);
        draws.push(d as u64);
    }
    let arr = NDArray::new(shape, draws).unwrap();
    assert_eq!(arr.shape, vec![6, 7]);
    assert_eq!(arr.data.len(), 42);
    assert!(arr.data.iter().any(|&v| v > 0));
}

#[test]
fn test_sqr_abs_values() {
    let a = NDArray::new(
        vec![3],
        vec![
            Complex { re: 3, im: 4 },
            Complex { re: 582, im: -423 },
            Complex { re: -1, im: 0 },
        ],
    )
    .unwrap();
    let r = sqr_abs(a);
    assert_eq!(r.shape, vec![3]);
    assert_eq!(r.data, vec![25, 517653, 1]);
}

#[test]
fn test_sqr_abs_zero_array() {
    let a = NDArray::new(vec![2, 3], vec![Complex { re: 0, im: 0 }; 6]).unwrap();
    let r = sqr_abs(a);
    assert_eq!(r.shape, vec![2, 3]);
    assert_eq!(r.data, vec![0u64; 6]);
}

#[test]
fn test_sqr_abs_extremes() {
    let a = NDArray::new(vec![1], vec![Complex { re: i32::MIN, im: i32::MIN }]).unwrap();
    let r = sqr_abs(a);
    let square = (i32::MIN as i64 * i32::MIN as i64) as u64;
    assert_eq!(r.data, vec![square + square]);
}

#[test]
fn test_to_i32_values() {
    let a = NDArray::new(vec![2, 2], vec![0u64, 7, 42, i32::MAX as u64]).unwrap();
    let r = to_i32(a);
    assert_eq!(r.shape, vec![2, 2]);
    assert_eq!(r.data, vec![0, 7, 42, i32::MAX]);
}

#[test]
fn test_time_passed_smoke() {
    let mut t = TimePassed::new();
    let mut acc: u64 = 0;
    for i in 0..100_000u64 {
        acc = acc.wrapping_add(i * i);
    }
    assert!(acc > 0);
    t.record();
    let since_root = t.since_root();
    let since_prev = t.since_prev();
    t.record();
    assert!(t.since_root() >= since_root);
    let _ = since_prev;
}
