use gse_next::sample::sorted_copy;

#[test]
fn sorting_keeps_every_sample() {
    assert_eq!(sorted_copy(&vec![3, 1, 2]), vec![1, 2, 3]);
    assert_eq!(sorted_copy(&vec![5, 5, 1, 5, 0]), vec![0, 1, 5, 5, 5]);
    assert_eq!(sorted_copy(&vec![]), Vec::<u64>::new());
    assert_eq!(sorted_copy(&vec![u64::MAX, 0, 7]), vec![0, 7, u64::MAX]);
    let mut seed: u64 = 12345;
    let mut samples = Vec::new();
    for _ in 0..500 {
        seed = seed.wrapping_mul(6364136223846793005).wrapping_add(1442695040888963407);
        samples.push((seed >> 33) % 2_000);
    }
    let mut expected = samples.clone();
    expected.sort_unstable();
    assert_eq!(sorted_copy(&samples), expected);
}
