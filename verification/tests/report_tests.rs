use pcs_bench::report::{decimal_string, format_count_line, format_pow2_line};

#[test]
fn decimal_rendering() {
    assert_eq!(decimal_string(0), "0");
    assert_eq!(decimal_string(7), "7");
    assert_eq!(decimal_string(10), "10");
    assert_eq!(decimal_string(12345), "12345");
    assert_eq!(decimal_string(u64::MAX), "18446744073709551615");
}

#[test]
fn count_line_format() {
    let line = format_count_line("[p3] goldilocks_mul: ", 1234, 1000, " iterations");
    assert_eq!(line, "[p3] goldilocks_mul: 1.234 ms for 1000 iterations");
}

#[test]
fn count_line_pads_fractional_milliseconds() {
    let line = format_count_line("[wf] merkle tree 1 col: ", 2003, 256, " leaves");
    assert_eq!(line, "[wf] merkle tree 1 col: 2.003 ms for 256 leaves");
    let line = format_count_line("[wf] merkle tree 1 col: ", 45, 256, " leaves");
    assert_eq!(line, "[wf] merkle tree 1 col: 0.045 ms for 256 leaves");
    let line = format_count_line("[wf] merkle tree 1 col: ", 0, 256, " leaves");
    assert_eq!(line, "[wf] merkle tree 1 col: 0.000 ms for 256 leaves");
}

#[test]
fn pow2_line_format() {
    let line = format_pow2_line("[p3]  1 poly fft: ", 1500999, " ms for size 2^", 10, 1024);
    assert_eq!(line, "[p3]  1 poly fft: 1500.999 ms for size 2^10 = 1024");
    let line = format_pow2_line("[wf] fft: ", 120, " ms to compute twiddles for size 2^", 4, 16);
    assert_eq!(line, "[wf] fft: 0.120 ms to compute twiddles for size 2^4 = 16");
}
