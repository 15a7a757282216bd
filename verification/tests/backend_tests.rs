use pcs_bench::backend_p3;
use pcs_bench::backend_wf;
use pcs_bench::workload::{generate_matrix, Workload};
use winterfell::math::fft;
use winterfell::math::fields::f64::BaseElement;

const P: u128 = 0xffff_ffff_0000_0001;

#[test]
fn p3_multiply_seed_product() {
    assert_eq!(backend_p3::multiply(12345, 67890), 838102050);
}

#[test]
fn wf_multiply_seed_product() {
    assert_eq!(backend_wf::multiply(12345, 67890), 838102050);
}

#[test]
fn backends_multiply_agree_with_reduction() {
    let a: u64 = 0xffff_ffff_0000_0000;
    let b: u64 = 12_345_678_901;
    let expected = ((a as u128 * b as u128) % P) as u64;
    assert_eq!(backend_p3::multiply(a, b), expected);
    assert_eq!(backend_wf::multiply(a, b), expected);
}

#[test]
fn p3_fft_single_element_is_identity() {
    let w = Workload { values: vec![123456789], width: 1 };
    let out = backend_p3::forward_fft(&w, 0);
    assert_eq!(out.values, vec![123456789]);
    assert_eq!(out.width, 1);
}

#[test]
fn p3_fft_preserves_shape() {
    let w = generate_matrix(8, 3);
    let out = backend_p3::forward_fft(&w, 3);
    assert_eq!(out.values.len(), 24);
    assert_eq!(out.width, 3);
}

#[test]
fn p3_fft_first_row_is_coefficient_sum() {
    // The transform evaluates each column's polynomial over the size-8 subgroup;
    // the evaluation at one equals the sum of the coefficients 0..8.
    let w = generate_matrix(8, 1);
    let out = backend_p3::forward_fft(&w, 3);
    assert_eq!(out.values[0], 28);
}

#[test]
fn wf_fft_single_element_is_identity() {
    let w = Workload { values: vec![987654321], width: 1 };
    let tw = backend_wf::prepare_twiddles(1, 0);
    assert!(tw.is_empty());
    let out = backend_wf::forward_fft(&w, &tw, 0);
    assert_eq!(out.values, vec![987654321]);
    assert_eq!(out.width, 1);
}

#[test]
fn wf_fft_matches_the_library_transform() {
    let w = generate_matrix(8, 1);
    let tw = backend_wf::prepare_twiddles(8, 3);
    let out = backend_wf::forward_fft(&w, &tw, 3);
    let mut direct: Vec<BaseElement> = (0..8u64).map(BaseElement::new).collect();
    let twd = fft::get_twiddles::<BaseElement>(8);
    fft::serial_fft(&mut direct, &twd);
    let expected: Vec<u64> = direct.iter().map(|e| e.as_int()).collect();
    assert_eq!(out.values, expected);
}

#[test]
fn wf_fft_preserves_shape() {
    let w = generate_matrix(8, 3);
    let tw = backend_wf::prepare_twiddles(8, 3);
    let out = backend_wf::forward_fft(&w, &tw, 3);
    assert_eq!(out.values.len(), 24);
    assert_eq!(out.width, 3);
}

#[test]
fn wf_fft_first_row_is_coefficient_sum() {
    let w = generate_matrix(8, 1);
    let tw = backend_wf::prepare_twiddles(8, 3);
    let out = backend_wf::forward_fft(&w, &tw, 3);
    assert_eq!(out.values[0], 28);
}

#[test]
fn wf_twiddle_count_is_half_the_size() {
    let tw = backend_wf::prepare_twiddles(16, 4);
    assert_eq!(tw.len(), 8);
}

#[test]
fn p3_commit_single_leaf_is_deterministic() {
    let w1 = Workload { values: vec![42], width: 1 };
    let w2 = Workload { values: vec![42], width: 1 };
    let r1 = backend_p3::commit(&w1, 0);
    let r2 = backend_p3::commit(&w2, 0);
    assert_eq!(r1.len(), 32);
    assert_eq!(r1, r2);
}

#[test]
fn p3_commit_distinguishes_workloads() {
    let w1 = Workload { values: vec![42], width: 1 };
    let w2 = Workload { values: vec![43], width: 1 };
    assert_ne!(backend_p3::commit(&w1, 0), backend_p3::commit(&w2, 0));
}

#[test]
fn wf_hash_leaf_is_deterministic_and_discriminating() {
    let a = backend_wf::hash_leaf(&vec![1, 2, 3]);
    let b = backend_wf::hash_leaf(&vec![1, 2, 3]);
    let c = backend_wf::hash_leaf(&vec![1, 2, 4]);
    assert_eq!(a.len(), 32);
    assert_eq!(a, b);
    assert_ne!(a, c);
}

#[test]
fn wf_merkle_root_is_deterministic() {
    let d1 = backend_wf::hash_leaf(&vec![1]);
    let d2 = backend_wf::hash_leaf(&vec![2]);
    let leaves = vec![d1.clone(), d2.clone()];
    let r1 = backend_wf::merkle_root(&leaves, 1);
    let r2 = backend_wf::merkle_root(&leaves, 1);
    assert_eq!(r1.len(), 32);
    assert_eq!(r1, r2);
    // The root is not simply one of the leaf digests.
    assert_ne!(r1, d1);
    assert_ne!(r1, d2);
}
