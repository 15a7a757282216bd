use vstd::prelude::*;
use vstd::arithmetic::power2::pow2;
use crate::field::{field_reduce, GOLDILOCKS_P};
use crate::workload::Workload;
use p3_commit::Mmcs;
use p3_dft::{Radix2DitParallel, TwoAdicSubgroupDft};
use p3_field::PrimeField64;
use p3_goldilocks::Goldilocks;
use p3_matrix::Matrix;
use p3_matrix::dense::RowMajorMatrix;
use p3_merkle_tree::MerkleTreeMmcs;
use p3_symmetric::{CompressionFunctionFromHasher, SerializingHasher};

verus! {

/// The canonical values that this backend's forward FFT returns for a row-major
/// workload: a fixed function of the input values and the column count alone.
pub uninterp spec fn p3_fft_of(values: Seq<u64>, width: nat) -> Seq<u64>;

/// The Merkle root bytes that this backend's commitment returns for a row-major
/// workload: a fixed function of the input values and the column count alone.
pub uninterp spec fn p3_root_of(values: Seq<u64>, width: nat) -> Seq<u8>;

/// Relies on p3_goldilocks::Goldilocks: `new` stores a canonical value unchanged,
/// `*` multiplies in the field of order GOLDILOCKS_P, and `as_canonical_u64`
/// returns the canonical representative.
#[verifier::external_body]
fn mul_raw(a: u64, b: u64) -> (r: u64)
    requires
        a < GOLDILOCKS_P,
        b < GOLDILOCKS_P,
    ensures
        r < GOLDILOCKS_P,
        r as int == field_reduce(a as int * b as int),
{
    (Goldilocks::new(a) * Goldilocks::new(b)).as_canonical_u64()
}

/// Relies on p3_dft::Radix2DitParallel::dft_batch: it computes the DFT of each
/// column of the matrix, so the output has the shape of the input, and a
/// height-one matrix (constant polynomials evaluated on the order-one subgroup)
/// comes back unchanged. The output is a function of the matrix alone.
#[verifier::external_body]
fn dft_raw(values: &Vec<u64>, width: usize, log_height: u32) -> (r: Vec<u64>)
    requires
        width >= 1,
        log_height <= 32,
        values@.len() == width * pow2(log_height as nat),
        forall|i: int| 0 <= i < values@.len() ==> values@[i] < GOLDILOCKS_P,
    ensures
        r@.len() == values@.len(),
        forall|i: int| 0 <= i < r@.len() ==> (#[trigger] r@[i]) < GOLDILOCKS_P,
        r@ == p3_fft_of(values@, width as nat),
        log_height == 0 ==> r@ == values@,
{
    let elems: Vec<Goldilocks> = values.iter().map(|v| Goldilocks::new(*v)).collect();
    let dft: Radix2DitParallel<Goldilocks> = Radix2DitParallel::default();
    let out = dft.dft_batch(RowMajorMatrix::new(elems, width)).to_row_major_matrix();
    out.values.iter().map(|g| g.as_canonical_u64()).collect()
}

/// Relies on p3_merkle_tree::MerkleTreeMmcs::commit with a Blake3 row hasher and a
/// binary Blake3 compressor: with cap height zero the commitment is the single
/// 32-byte Merkle root, a function of the committed matrix alone.
#[verifier::external_body]
fn commit_raw(values: &Vec<u64>, width: usize, log_height: u32) -> (r: Vec<u8>)
    requires
        width >= 1,
        log_height <= 32,
        values@.len() == width * pow2(log_height as nat),
        forall|i: int| 0 <= i < values@.len() ==> values@[i] < GOLDILOCKS_P,
    ensures
        r@.len() == 32,
        r@ == p3_root_of(values@, width as nat),
{
    let elems: Vec<Goldilocks> = values.iter().map(|v| Goldilocks::new(*v)).collect();
    let mmcs = MerkleTreeMmcs::<Goldilocks, u8, _, _, 2, 32>::new(
        SerializingHasher::new(p3_blake3::Blake3),
        CompressionFunctionFromHasher::<_, 2, 32>::new(p3_blake3::Blake3),
        0,
    );
    let (cap, _prover_data) = mmcs.commit(vec![RowMajorMatrix::new(elems, width)]);
    let roots: &[[u8; 32]] = cap.as_ref();
    roots[0].to_vec()
}

/// Field multiplication through this backend.
pub fn multiply(a: u64, b: u64) -> (r: u64)
    requires
        a < GOLDILOCKS_P,
        b < GOLDILOCKS_P,
    ensures
        r < GOLDILOCKS_P,
        r as int == field_reduce(a as int * b as int),
{
    mul_raw(a, b)
}

/// Forward FFT of each column of the workload; the shape is preserved, and a
/// single-row workload comes back unchanged.
pub fn forward_fft(w: &Workload, log_height: u32) -> (r: Workload)
    requires
        w.wf(),
        log_height <= 32,
        w.values@.len() == w.width * pow2(log_height as nat),
    ensures
        r.wf(),
        r.width == w.width,
        r.values@.len() == w.values@.len(),
        r.values@ == p3_fft_of(w.values@, w.width as nat),
        log_height == 0 ==> r.values@ == w.values@,
{
    let out = dft_raw(&w.values, w.width, log_height);
    Workload { values: out, width: w.width }
}

/// Merkle commitment over the workload's rows; returns the 32-byte root.
pub fn commit(w: &Workload, log_height: u32) -> (r: Vec<u8>)
    requires
        w.wf(),
        log_height <= 32,
        w.values@.len() == w.width * pow2(log_height as nat),
    ensures
        r@.len() == 32,
        r@ == p3_root_of(w.values@, w.width as nat),
{
    commit_raw(&w.values, w.width, log_height)
}

/// Committing equal workloads through this backend yields equal roots.
pub proof fn lemma_commit_deterministic(
    w1: &Workload,
    w2: &Workload,
    r1: Seq<u8>,
    r2: Seq<u8>,
)
    requires
        w1.values@ == w2.values@,
        w1.width == w2.width,
        r1 == p3_root_of(w1.values@, w1.width as nat),
        r2 == p3_root_of(w2.values@, w2.width as nat),
    ensures
        r1 == r2,
{
}

} // verus!
