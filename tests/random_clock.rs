use raytracer::random::Random;
use raytracer::stopwatch::StopWatch;

#[test]
fn same_seed_same_numbers() {
    let mut a = Random::new(31);
    let mut b = Random::new(31);
    for _ in 0..100 {
        assert_eq!(a.random(), b.random());
        assert_eq!(a.random_u64(), b.random_u64());
    }
}

#[test]
fn different_seeds_differ() {
    let mut a = Random::new(31);
    let mut b = Random::new(32);
    let xs: Vec<u64> = (0..8).map(|_| a.random_u64()).collect();
    let ys: Vec<u64> = (0..8).map(|_| b.random_u64()).collect();
    assert_ne!(xs, ys);
}

#[test]
fn stopwatch_starts_at_zero() {
    let w = StopWatch::new();
    assert_eq!(w.elapsed_nanos(), 0);
}

#[test]
fn stopwatch_measures_forward() {
    let mut w = StopWatch::new();
    w.start();
    w.stop();
    assert!(w.elapsed_nanos() < 60_000_000_000);
}

#[test]
fn wide_draw_is_two_words_low_first() {
    let mut a = Random::new(7);
    let mut b = Random::new(7);
    for _ in 0..50 {
        let lo = a.random() as u64;
        let hi = a.random() as u64;
        assert_eq!(b.random_u64(), lo + (hi << 32));
    }
    let _ = a.random();
    let _ = b.random();
    let mut c = Random::new(7);
    for _ in 0..101 {
        c.random();
    }
    assert_eq!(a.random(), c.random());
}
