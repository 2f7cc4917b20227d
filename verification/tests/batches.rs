use udp_stress::batches::prepare;

#[test]
fn test_3_over_5() {
    let mut batches = prepare(vec![1, 2, 3, 4, 5], 3, false);
    assert_eq!(batches.next(), Some(vec![1, 2, 3]));
    assert_eq!(batches.next(), Some(vec![4, 5, 1]));
    assert_eq!(batches.next(), Some(vec![2, 3, 4]));
    assert_eq!(batches.next(), Some(vec![5, 1, 2]));
    assert_eq!(batches.next(), Some(vec![3, 4, 5]));
    assert_eq!(batches.next(), None);
}

#[test]
fn test_loop_back() {
    let mut batches = prepare(vec![1, 2, 3, 4, 5], 3, true);
    for _ in 0..1000 {
        assert!(batches.next().is_some());
    }
}

#[test]
fn non_looping_run_is_uniform() {
    // pool of 5, batches of 3: lcm(5, 3) / 3 = 5 draws, and each sample
    // appears lcm(5, 3) / 5 = 3 times across the whole run
    let mut batches = prepare(vec![10, 20, 30, 40, 50], 3, false);
    let mut draws = 0;
    let mut seen = Vec::new();
    while let Some(batch) = batches.next() {
        assert_eq!(batch.len(), 3);
        seen.extend(batch);
        draws += 1;
    }
    assert_eq!(draws, 5);
    for sample in [10, 20, 30, 40, 50] {
        assert_eq!(seen.iter().filter(|&&x| x == sample).count(), 3);
    }
}

#[test]
fn pool_length_multiple_of_batch() {
    let mut batches = prepare(vec![1, 2, 3, 4], 2, false);
    assert_eq!(batches.next(), Some(vec![1, 2]));
    assert_eq!(batches.next(), Some(vec![3, 4]));
    assert_eq!(batches.next(), None);
}

#[test]
fn empty_pool_ends_immediately() {
    let mut batches = prepare(Vec::<u8>::new(), 3, true);
    assert_eq!(batches.next(), None);
    assert_eq!(batches.next(), None);
}

#[test]
fn zero_batch_size_ends_immediately() {
    let mut batches = prepare(vec![1, 2, 3], 0, true);
    assert_eq!(batches.next(), None);
    assert_eq!(batches.next(), None);
}

#[test]
fn exhausted_sampler_stays_exhausted() {
    let mut batches = prepare(vec![7], 1, false);
    assert_eq!(batches.next(), Some(vec![7]));
    assert_eq!(batches.next(), None);
    assert_eq!(batches.next(), None);
}

#[test]
fn looping_sampler_wraps_in_order() {
    let mut batches = prepare(vec![1, 2], 2, true);
    assert_eq!(batches.next(), Some(vec![1, 2]));
    assert_eq!(batches.next(), Some(vec![1, 2]));
    assert_eq!(batches.next(), Some(vec![1, 2]));
}
