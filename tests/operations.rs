use rand::rngs::mock::StepRng;
use rand::Rng;
use shuffler::{put_back, random, remove_middle, reverse, riffle};

fn sorted(v: &[i32]) -> Vec<i32> {
    let mut s = v.to_vec();
    s.sort();
    s
}

#[test]
fn reverse_test() {
    let mut v = vec![1, 2, 3];
    reverse(&mut v);
    assert_eq!(v, vec![3, 2, 1]);
}

#[test]
fn put_back_test() {
    let mut v = vec![1, 2, 3, 4];
    put_back(&mut v, 2);
    assert_eq!(v, vec![3, 4, 1, 2]);
}

#[test]
fn riffle_test_even() {
    let mut r = Vec::from_iter(1..=10);
    riffle(&mut r);
    assert_eq!(r, vec![1, 6, 2, 7, 3, 5, 4, 9, 8, 10]);
}

#[test]
fn riffle_test_odd() {
    let mut r = Vec::from_iter(1..=9);
    riffle(&mut r);
    assert_eq!(r, vec![1, 6, 2, 7, 3, 5, 4, 9, 8]);
}

#[test]
fn remove_middle_test() {
    let mut r = Vec::from_iter(1..=9);
    remove_middle(&mut r);
    assert_eq!(r, vec![1, 2, 3, 8, 9, 4, 5, 6, 7]);
}

#[test]
fn combine_test() {
    let mut r = Vec::from_iter(1..=15);

    riffle(&mut r);
    put_back(&mut r, 3);
    reverse(&mut r);

    assert_eq!(r, vec![2, 9, 1, 14, 15, 13, 8, 6, 7, 5, 12, 4, 11, 3, 10]);

    riffle(&mut r);
    put_back(&mut r, 3);
    reverse(&mut r);

    assert_eq!(r, vec![9, 7, 2, 3, 10, 11, 6, 13, 8, 15, 4, 14, 12, 1, 5]);

    riffle(&mut r);
    put_back(&mut r, 3);
    reverse(&mut r);

    assert_eq!(r, vec![7, 8, 9, 1, 5, 12, 13, 11, 6, 10, 14, 3, 4, 2, 15]);

    riffle(&mut r);
    put_back(&mut r, 3);
    reverse(&mut r);

    assert_eq!(r, vec![8, 6, 7, 2, 15, 4, 11, 12, 13, 5, 3, 1, 14, 9, 10]);
}

#[test]
fn test_random() {
    let mut rng = StepRng::new(0, 1);
    let mut r = Vec::from_iter(1..=10);
    let expected = vec![10, 1, 2, 3, 4, 5, 6, 7, 8, 9];
    let n = r.len();
    let mut draws: Vec<usize> = Vec::new();
    for _ in 0..n {
        draws.push(rng.gen_range(0..n));
    }
    random(&mut r, &draws);
    assert_eq!(r, expected);

    let mut rng = rand::thread_rng();
    let mut r = Vec::from_iter(1..=10);
    let mut draws: Vec<usize> = Vec::new();
    for _ in 0..n {
        draws.push(rng.gen_range(0..n));
    }
    random(&mut r, &draws);
    assert_ne!(r, Vec::from_iter(1..=10));
    assert_ne!(r, expected);
}

#[test]
fn reverse_twice_restores() {
    let original = vec![4, 8, 15, 16, 23, 42, 7];
    let mut v = original.clone();
    reverse(&mut v);
    assert_eq!(v, vec![7, 42, 23, 16, 15, 8, 4]);
    reverse(&mut v);
    assert_eq!(v, original);
}

#[test]
fn reverse_empty_and_single() {
    let mut e: Vec<i32> = Vec::new();
    reverse(&mut e);
    assert!(e.is_empty());
    let mut s = vec![9];
    reverse(&mut s);
    assert_eq!(s, vec![9]);
}

#[test]
fn put_back_full_length_is_identity() {
    let mut v = vec![1, 2, 3, 4, 5];
    put_back(&mut v, 5);
    assert_eq!(v, vec![1, 2, 3, 4, 5]);
    put_back(&mut v, 0);
    assert_eq!(v, vec![1, 2, 3, 4, 5]);
}

#[test]
fn put_back_then_complement_restores() {
    let original = vec![1, 2, 3, 4, 5, 6, 7];
    let mut v = original.clone();
    let amount: usize = 17;
    put_back(&mut v, amount);
    assert_eq!(v, vec![4, 5, 6, 7, 1, 2, 3]);
    put_back(&mut v, 7 - amount % 7);
    assert_eq!(v, original);
}

#[test]
fn put_back_amount_beyond_length() {
    let mut v = vec![1, 2, 3, 4];
    put_back(&mut v, 6);
    assert_eq!(v, vec![3, 4, 1, 2]);
    let mut w = vec![1, 2, 3, 4];
    put_back(&mut w, usize::MAX);
    assert_eq!(w, vec![4, 1, 2, 3]);
}

#[test]
fn put_back_empty_is_noop() {
    let mut e: Vec<i32> = Vec::new();
    put_back(&mut e, 3);
    assert!(e.is_empty());
}

#[test]
fn riffle_short_lengths() {
    let mut e: Vec<i32> = Vec::new();
    riffle(&mut e);
    assert!(e.is_empty());
    let mut one = vec![1];
    riffle(&mut one);
    assert_eq!(one, vec![1]);
    let mut two = vec![1, 2];
    riffle(&mut two);
    assert_eq!(two, vec![1, 2]);
    let mut three = vec![1, 2, 3];
    riffle(&mut three);
    assert_eq!(three, vec![1, 3, 2]);
}

#[test]
fn riffle_lengths_seven_and_eight() {
    let mut seven = Vec::from_iter(1..=7);
    riffle(&mut seven);
    assert_eq!(seven, vec![1, 5, 2, 6, 3, 4, 7]);
    let mut eight = Vec::from_iter(1..=8);
    riffle(&mut eight);
    assert_eq!(eight, vec![1, 5, 2, 6, 3, 4, 7, 8]);
}

#[test]
fn remove_middle_other_lengths() {
    let mut eight = Vec::from_iter(1..=8);
    remove_middle(&mut eight);
    assert_eq!(eight, vec![1, 2, 7, 8, 3, 4, 5, 6]);
    let mut ten = Vec::from_iter(1..=10);
    remove_middle(&mut ten);
    assert_eq!(ten, vec![1, 2, 3, 4, 9, 10, 5, 6, 7, 8]);
}

#[test]
fn remove_middle_short_is_noop() {
    let mut three = vec![1, 2, 3];
    remove_middle(&mut three);
    assert_eq!(three, vec![1, 2, 3]);
    let mut e: Vec<i32> = Vec::new();
    remove_middle(&mut e);
    assert!(e.is_empty());
}

#[test]
fn random_with_chosen_draws() {
    let mut v = vec![1, 2, 3, 4, 5];
    random(&mut v, &[4, 0, 2, 1, 3]);
    assert_eq!(v, vec![2, 4, 3, 1, 5]);
    let mut w = vec![1, 2, 3, 4];
    random(&mut w, &[0, 1, 2, 3]);
    assert_eq!(w, vec![1, 2, 3, 4]);
}

#[test]
fn every_operation_keeps_the_elements() {
    let original = vec![5, 3, 3, 9, 1, 1, 1, 7, 2, 8, 6];
    let expected = sorted(&original);
    let n = original.len();

    let mut v = original.clone();
    reverse(&mut v);
    assert_eq!(v.len(), n);
    assert_eq!(sorted(&v), expected);

    let mut v = original.clone();
    put_back(&mut v, 4);
    assert_eq!(sorted(&v), expected);

    let mut v = original.clone();
    riffle(&mut v);
    assert_eq!(sorted(&v), expected);

    let mut v = original.clone();
    remove_middle(&mut v);
    assert_eq!(sorted(&v), expected);

    let mut v = original.clone();
    random(&mut v, &[10, 3, 3, 0, 7, 1, 9, 2, 2, 5, 4]);
    assert_eq!(sorted(&v), expected);
}

#[test]
fn operations_on_non_copy_elements() {
    let mut v: Vec<String> = vec!["a".to_string(), "b".to_string(), "c".to_string(), "d".to_string()];
    riffle(&mut v);
    assert_eq!(v, vec!["a", "c", "b", "d"]);
    reverse(&mut v);
    assert_eq!(v, vec!["d", "b", "c", "a"]);
}
