use pcs_bench::runner::{
    bench_p3_fft, bench_p3_goldilocks_mul, bench_p3_merkle_tree, bench_winterfell_fft,
    bench_winterfell_goldilocks_mul, bench_winterfell_merkle_tree, run_p3_fft, run_p3_merkle,
    run_p3_mul, run_wf_fft, run_wf_merkle, run_wf_mul,
};

const P: u128 = 0xffff_ffff_0000_0001;

fn expected_mul_chain(iterations: u32) -> u64 {
    let mut acc: u128 = 12345;
    for _ in 0..iterations {
        acc = (acc * 67890) % P;
    }
    acc as u64
}

#[test]
fn mul_case_performs_exactly_the_requested_multiplications() {
    let rec = run_p3_mul(1000);
    assert_eq!(rec.iterations, 1000);
    assert_eq!(rec.product, expected_mul_chain(1000));
    let rec = run_wf_mul(1000);
    assert_eq!(rec.iterations, 1000);
    assert_eq!(rec.product, expected_mul_chain(1000));
}

#[test]
fn mul_case_backends_agree() {
    for n in [0u32, 1, 2, 17, 250] {
        assert_eq!(run_p3_mul(n).product, run_wf_mul(n).product);
    }
}

#[test]
fn fft_case_generates_both_workload_sizes() {
    let (r1, r80) = run_p3_fft(10);
    assert_eq!(r1.workload_len, 1024);
    assert_eq!(r1.lanes, 1);
    assert_eq!(r80.workload_len, 81920);
    assert_eq!(r80.lanes, 80);

    let (r1, r80, _twiddle_micros) = run_wf_fft(10);
    assert_eq!(r1.workload_len, 1024);
    assert_eq!(r1.lanes, 1);
    assert_eq!(r80.workload_len, 81920);
    assert_eq!(r80.lanes, 80);
}

#[test]
fn merkle_case_builds_both_trees_over_256_leaves() {
    let (r1, r80) = run_p3_merkle(8);
    assert_eq!(r1.leaf_count, 256);
    assert_eq!(r1.lanes, 1);
    assert_eq!(r1.root.len(), 32);
    assert_eq!(r80.leaf_count, 256);
    assert_eq!(r80.lanes, 80);
    assert_eq!(r80.root.len(), 32);

    let (r1, r80) = run_wf_merkle(8);
    assert_eq!(r1.leaf_count, 256);
    assert_eq!(r1.lanes, 1);
    assert_eq!(r1.root.len(), 32);
    assert_eq!(r80.leaf_count, 256);
    assert_eq!(r80.lanes, 80);
    assert_eq!(r80.root.len(), 32);
    assert!(r80.leaf_hash_micros.is_some());
    assert!(r1.leaf_hash_micros.is_none());
}

#[test]
fn merkle_case_roots_are_reproducible() {
    let (a1, a80) = run_p3_merkle(2);
    let (b1, b80) = run_p3_merkle(2);
    assert_eq!(a1.root, b1.root);
    assert_eq!(a80.root, b80.root);

    let (a1, a80) = run_wf_merkle(2);
    let (b1, b80) = run_wf_merkle(2);
    assert_eq!(a1.root, b1.root);
    assert_eq!(a80.root, b80.root);
}

#[test]
fn mul_case_with_zero_iterations_keeps_the_seed() {
    assert_eq!(run_p3_mul(0).product, 12345);
    assert_eq!(run_wf_mul(0).product, 12345);
}

#[test]
fn smallest_accepted_sizes_work() {
    let (r1, r80, _) = run_wf_fft(0);
    assert_eq!(r1.workload_len, 1);
    assert_eq!(r80.workload_len, 80);
    let (r1, r80, _) = run_wf_fft(1);
    assert_eq!(r1.workload_len, 2);
    assert_eq!(r80.workload_len, 160);
    let (m1, m80) = run_wf_merkle(1);
    assert_eq!(m1.leaf_count, 2);
    assert_eq!(m80.leaf_count, 2);
    let (p1, p80) = run_p3_merkle(0);
    assert_eq!(p1.leaf_count, 1);
    assert_eq!(p80.leaf_count, 1);
}

#[test]
fn bench_entry_points_run_to_completion() {
    bench_p3_goldilocks_mul(1000);
    bench_winterfell_goldilocks_mul(1000);
    bench_p3_fft(4);
    bench_winterfell_fft(4);
    bench_p3_merkle_tree(3);
    bench_winterfell_merkle_tree(3);
}
