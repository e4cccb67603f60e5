use parallel_sum::error::ReduceError;
use parallel_sum::pool::{pool_or_refusal, start_pool, sum_in_pool, sum_with_rayon};
use parallel_sum::reduce::requested_lanes;
use parallel_sum::sum::sum_single_thread;

#[test]
fn pooled_sum_of_small_values() {
    assert_eq!(sum_with_rayon(vec![1, 2, 3, 4, 5], 2), Ok(15));
    assert_eq!(sum_with_rayon(vec![5], 8), Ok(5));
}

#[test]
fn pooled_sum_of_nothing_is_zero() {
    assert_eq!(sum_with_rayon(Vec::new(), 4), Ok(0));
    assert_eq!(sum_with_rayon(Vec::new(), 0), Ok(0));
    assert_eq!(sum_with_rayon(Vec::new(), -2), Ok(0));
}

#[test]
fn pooled_sum_refuses_no_workers() {
    assert_eq!(sum_with_rayon(vec![1, 2, 3], 0), Err(ReduceError::NoWorkers));
    assert_eq!(sum_with_rayon(vec![1, 2, 3], -1), Err(ReduceError::NoWorkers));
}

#[test]
fn pooled_sum_wraps_like_sequential() {
    assert_eq!(sum_with_rayon(vec![i32::MAX, 1], 2), Ok(i32::MIN));
    let mut s = Vec::new();
    let mut v: i32 = 99;
    for _ in 0..5_000 {
        v = v.wrapping_mul(1_103_515_245).wrapping_add(12_345);
        s.push(v);
    }
    let expected = sum_single_thread(s.clone());
    for w in [1, 2, 4, 8] {
        assert_eq!(sum_with_rayon(s.clone(), w), Ok(expected));
    }
}

#[test]
fn sum_in_started_pool() {
    let pool = start_pool(3);
    assert!(pool.is_ok());
    assert_eq!(sum_in_pool(pool, &vec![10, 20, -5, i32::MAX, 1]), Ok(i32::MIN + 25));
}

#[test]
fn started_pool_was_asked_for_the_requested_lanes() {
    for n in [1, 2, 4, 8] {
        let pool = start_pool(n).ok().expect("a small pool starts");
        assert_eq!(pool.lanes(), n as usize);
    }
}

#[test]
fn no_pool_is_started_for_no_workers() {
    assert_eq!(start_pool(0).err(), Some(ReduceError::NoWorkers));
    assert_eq!(start_pool(-7).err(), Some(ReduceError::NoWorkers));
    assert_eq!(start_pool(i32::MIN).err(), Some(ReduceError::NoWorkers));
}

#[test]
fn sum_without_pool_is_refused() {
    assert_eq!(
        sum_in_pool(Err(ReduceError::PoolUnavailable), &vec![1, 2, 3]),
        Err(ReduceError::PoolUnavailable)
    );
    assert_eq!(
        sum_in_pool(Err(ReduceError::NoWorkers), &vec![1, 2, 3]),
        Err(ReduceError::NoWorkers)
    );
    assert_eq!(sum_in_pool(start_pool(0), &vec![1, 2, 3]), Err(ReduceError::NoWorkers));
}

#[test]
fn failed_pool_start_is_pool_unavailable() {
    let _ = rayon::ThreadPoolBuilder::new().num_threads(1).build_global();
    let again = rayon::ThreadPoolBuilder::new().num_threads(1).build_global();
    let failure = again.expect_err("the global pool is started once");
    let refused = pool_or_refusal(Err(failure));
    assert_eq!(refused.err(), Some(ReduceError::PoolUnavailable));
    let again = rayon::ThreadPoolBuilder::new().num_threads(1).build_global();
    let failure = again.expect_err("the global pool is started once");
    assert_eq!(
        sum_in_pool(pool_or_refusal(Err(failure)), &vec![1, 2, 3]),
        Err(ReduceError::PoolUnavailable)
    );
}

#[test]
fn requested_lanes_of_signed_counts() {
    assert_eq!(requested_lanes(1), Ok(1));
    assert_eq!(requested_lanes(8), Ok(8));
    assert_eq!(requested_lanes(i32::MAX), Ok(2_147_483_647));
    assert_eq!(requested_lanes(0), Err(ReduceError::NoWorkers));
    assert_eq!(requested_lanes(-1), Err(ReduceError::NoWorkers));
    assert_eq!(requested_lanes(i32::MIN), Err(ReduceError::NoWorkers));
}
