use pcs_bench::workload::{generate_elements, generate_matrix, generate_offset_elements, generate_offset_matrix};

const P: u128 = 0xffff_ffff_0000_0001;

#[test]
fn generate_elements_is_deterministic() {
    let a = generate_elements(100);
    let b = generate_elements(100);
    assert_eq!(a, b);
}

#[test]
fn generate_elements_values_are_reduced_indices() {
    let a = generate_elements(1000);
    assert_eq!(a.len(), 1000);
    for (i, v) in a.iter().enumerate() {
        assert_eq!(*v as u128, (i as u128) % P);
    }
}

#[test]
fn generate_offset_elements_values_carry_offset() {
    let a = generate_offset_elements(64);
    assert_eq!(a.len(), 64);
    for (i, v) in a.iter().enumerate() {
        assert_eq!(*v as u128, ((1u128 << 55) + i as u128) % P);
    }
}

#[test]
fn generate_matrix_is_deterministic() {
    let w1 = generate_matrix(4, 3);
    let w2 = generate_matrix(4, 3);
    assert_eq!(w1.values, w2.values);
    assert_eq!(w1.width, w2.width);
    assert_eq!(w1.width, 3);
    assert_eq!(w1.values.len(), 12);
}

#[test]
fn generate_offset_matrix_shape() {
    let w = generate_offset_matrix(8, 80);
    assert_eq!(w.width, 80);
    assert_eq!(w.values.len(), 640);
    assert_eq!(w.values[0] as u128, (1u128 << 55) % P);
}

#[test]
fn empty_workload_is_allowed() {
    let a = generate_elements(0);
    assert!(a.is_empty());
}
