use vstd::prelude::*;
use vstd::arithmetic::div_mod::lemma_div_multiples_vanish;
use vstd::arithmetic::mul::lemma_mul_is_commutative;
use vstd::arithmetic::power2::{lemma2_to64, pow2};
use crate::field::{field_reduce, GOLDILOCKS_P};
use crate::workload::{column_of, lemma_flat_index, lemma_row_col_bounds, Workload};
use winter_utils::Deserializable;
use winterfell::crypto::hashers::Blake3_256;
use winterfell::crypto::{Digest, Hasher, MerkleTree};
use winterfell::math::fft;
use winterfell::math::fields::f64::BaseElement;

verus! {

/// The canonical values of the twiddle factors that this backend precomputes for a
/// transform of `2^log_size` elements: a fixed function of the size alone.
pub uninterp spec fn wf_twiddles_of(log_size: nat) -> Seq<u64>;

/// The canonical values that this backend's in-place forward FFT leaves in a
/// power-of-two column when given the twiddles prepared for its size: a fixed
/// function of the column values and the size exponent alone.
pub uninterp spec fn wf_fft_of(values: Seq<u64>, log_size: nat) -> Seq<u64>;

/// The 32 bytes that the Blake3-256 hasher returns for a byte string: a fixed
/// function of the bytes alone.
pub uninterp spec fn blake3_digest_of(bytes: Seq<u8>) -> Seq<u8>;

/// The 32-byte Merkle root that this backend's binary tree builds over a sequence
/// of leaf digests: a fixed function of the digests alone.
pub uninterp spec fn wf_root_of(leaves: Seq<Seq<u8>>) -> Seq<u8>;

/// Relies on winter_math's f64 base field: `new` reduces its argument modulo
/// GOLDILOCKS_P, `*` multiplies in that field, and `as_int` returns the canonical
/// representative.
#[verifier::external_body]
fn mul_raw(a: u64, b: u64) -> (r: u64)
    requires
        a < GOLDILOCKS_P,
        b < GOLDILOCKS_P,
    ensures
        r < GOLDILOCKS_P,
        r as int == field_reduce(a as int * b as int),
{
    (BaseElement::new(a) * BaseElement::new(b)).as_int()
}

/// Relies on winter_math::fft::get_twiddles: for a power-of-two domain size of at
/// least two that the field supports, it returns exactly `size / 2` twiddle
/// factors, a fixed function of the size alone (powers of the domain's root of
/// unity, permuted). It panics on a one-element domain, which the requires
/// excludes.
#[verifier::external_body]
fn twiddles_raw(size: usize, log_size: u32) -> (r: Vec<u64>)
    requires
        1 <= log_size <= 32,
        size == pow2(log_size as nat),
    ensures
        r@.len() == size as nat / 2,
        r@ == wf_twiddles_of(log_size as nat),
{
    fft::get_twiddles::<BaseElement>(size).iter().map(|e| e.as_int()).collect()
}

/// Relies on winter_math::fft::serial_fft: given the twiddles that `get_twiddles`
/// returns for the column's size (rebuilt here from their canonical values), the
/// in-place transform is a fixed function of the column values and the size
/// exponent; the length is unchanged, and the canonical conversion on the way out
/// keeps every value in the field.
#[verifier::external_body]
fn serial_fft_raw(values: &mut Vec<u64>, twiddles: &Vec<u64>, log_size: u32)
    requires
        1 <= log_size <= 32,
        old(values)@.len() == pow2(log_size as nat),
        twiddles@.len() * 2 == old(values)@.len(),
        twiddles@ == wf_twiddles_of(log_size as nat),
        forall|i: int| 0 <= i < old(values)@.len() ==> old(values)@[i] < GOLDILOCKS_P,
    ensures
        final(values)@.len() == old(values)@.len(),
        final(values)@ == wf_fft_of(old(values)@, log_size as nat),
        forall|i: int| 0 <= i < final(values)@.len() ==> (#[trigger] final(values)@[i])
            < GOLDILOCKS_P,
{
    let tw: Vec<BaseElement> = twiddles.iter().map(|t| BaseElement::new(*t)).collect();
    let mut elems: Vec<BaseElement> = values.iter().map(|v| BaseElement::new(*v)).collect();
    fft::serial_fft(&mut elems, &tw);
    *values = elems.iter().map(|e| e.as_int()).collect();
}

/// Relies on winter_crypto's Blake3_256 hasher: a 32-byte digest that depends on
/// the hashed bytes alone.
#[verifier::external_body]
fn blake3_hash_raw(bytes: &Vec<u8>) -> (r: Vec<u8>)
    ensures
        r@.len() == 32,
        r@ == blake3_digest_of(bytes@),
{
    Blake3_256::<BaseElement>::hash(bytes).as_bytes().to_vec()
}

/// Relies on winter_crypto::MerkleTree: `new` fails only on fewer than two leaves
/// or a non-power-of-two count, both excluded here, and `root` returns the built
/// tree's root, a fixed function of the leaf digests alone. The digest values are
/// rebuilt from their 32 bytes through the digest type's Deserializable impl,
/// which reads back exactly the bytes that `as_bytes` exposes.
#[verifier::external_body]
fn merkle_root_raw(leaves: &Vec<Vec<u8>>, log_count: u32) -> (r: Vec<u8>)
    requires
        1 <= log_count,
        leaves@.len() == pow2(log_count as nat),
        forall|i: int| 0 <= i < leaves@.len() ==> (#[trigger] leaves@[i])@.len() == 32,
    ensures
        r@.len() == 32,
        r@ == wf_root_of(leaves@.map_values(|l: Vec<u8>| l@)),
{
    let ds: Vec<<Blake3_256<BaseElement> as Hasher>::Digest> = leaves
        .iter()
        .map(|l| {
            <<Blake3_256<BaseElement> as Hasher>::Digest as Deserializable>::read_from_bytes(
                l.as_slice(),
            ).unwrap()
        })
        .collect();
    let tree: MerkleTree<Blake3_256<BaseElement>> = MerkleTree::new(ds).unwrap();
    tree.root().as_bytes().to_vec()
}

/// Field multiplication through this backend.
pub fn multiply(a: u64, b: u64) -> (r: u64)
    requires
        a < GOLDILOCKS_P,
        b < GOLDILOCKS_P,
    ensures
        r < GOLDILOCKS_P,
        r as int == field_reduce(a as int * b as int),
{
    mul_raw(a, b)
}

/// Twiddle factors for a power-of-two transform size, as canonical values; this
/// backend exposes their precomputation as a separable, separately timed step. A
/// one-element domain needs no twiddles and the library computes none for it.
pub fn prepare_twiddles(size: usize, log_size: u32) -> (r: Vec<u64>)
    requires
        log_size <= 32,
        size == pow2(log_size as nat),
    ensures
        r@.len() == size as nat / 2,
        log_size >= 1 ==> r@ == wf_twiddles_of(log_size as nat),
{
    if log_size == 0 {
        proof {
            lemma2_to64();
        }
        Vec::new()
    } else {
        twiddles_raw(size, log_size)
    }
}

/// Forward FFT of each column of the workload, using twiddles prepared for its
/// height: every column of the result is the transform of the matching input
/// column, so the shape is preserved. A single-row workload is returned
/// unchanged: the transform of one element is that element, and this backend's
/// library computes no length-one transform itself.
pub fn forward_fft(w: &Workload, twiddles: &Vec<u64>, log_height: u32) -> (r: Workload)
    requires
        w.wf(),
        log_height <= 32,
        w.values@.len() == w.width * pow2(log_height as nat),
        log_height >= 1 ==> twiddles@ == wf_twiddles_of(log_height as nat),
        log_height >= 1 ==> twiddles@.len() * 2 == pow2(log_height as nat),
    ensures
        r.wf(),
        r.width == w.width,
        r.values@.len() == w.values@.len(),
        log_height == 0 ==> r.values@ == w.values@,
        log_height >= 1 ==> forall|c: int|
            0 <= c < w.width ==> #[trigger] column_of(r.values@, w.width as nat, c) == wf_fft_of(
                column_of(w.values@, w.width as nat, c),
                log_height as nat,
            ),
{
    let n = w.values.len();
    let width = w.width;
    let ghost orig = w.values@;
    proof {
        lemma_div_multiples_vanish(pow2(log_height as nat) as int, width as int);
        lemma_mul_is_commutative(width as int, pow2(log_height as nat) as int);
    }
    let height = n / width;
    assert(height == pow2(log_height as nat));
    let mut out: Vec<u64> = Vec::new();
    let mut k: usize = 0;
    while k < n
        invariant
            k <= n,
            out@.len() == k,
            n == orig.len(),
            orig == w.values@,
            w.wf(),
            forall|i: int| 0 <= i < k ==> (#[trigger] out@[i]) == orig[i],
        decreases n - k,
    {
        out.push(w.values[k]);
        k = k + 1;
    }
    assert(out@ =~= orig);
    if log_height == 0 {
        return Workload { values: out, width };
    }
    let mut col: usize = 0;
    while col < width
        invariant
            col <= width,
            out@.len() == n,
            n == orig.len(),
            orig == w.values@,
            w.wf(),
            width == w.width,
            width >= 1,
            n == width * height,
            height == pow2(log_height as nat),
            1 <= log_height <= 32,
            twiddles@ == wf_twiddles_of(log_height as nat),
            twiddles@.len() * 2 == pow2(log_height as nat),
            forall|i: int| 0 <= i < n ==> (#[trigger] out@[i]) < GOLDILOCKS_P,
            forall|i: int|
                0 <= i < n && i % (width as int) >= col ==> (#[trigger] out@[i]) == orig[i],
            forall|i: int|
                0 <= i < n && i % (width as int) < col ==> (#[trigger] out@[i]) == wf_fft_of(
                    column_of(orig, width as nat, i % (width as int)),
                    log_height as nat,
                )[i / (width as int)],
            forall|c2: int|
                0 <= c2 < col ==> (#[trigger] wf_fft_of(
                    column_of(orig, width as nat, c2),
                    log_height as nat,
                )).len() == height,
        decreases width - col,
    {
        let mut column: Vec<u64> = Vec::new();
        let mut r_i: usize = 0;
        while r_i < height
            invariant
                r_i <= height,
                col < width,
                column@.len() == r_i,
                out@.len() == n,
                n == orig.len(),
                n == width * height,
                width >= 1,
                forall|i: int| 0 <= i < n ==> (#[trigger] out@[i]) < GOLDILOCKS_P,
                forall|i: int|
                    0 <= i < n && i % (width as int) >= col ==> (#[trigger] out@[i]) == orig[i],
                forall|j: int|
                    0 <= j < r_i ==> (#[trigger] column@[j]) == orig[j * (width as int)
                        + col as int],
                forall|j: int| 0 <= j < r_i ==> (#[trigger] column@[j]) < GOLDILOCKS_P,
            decreases height - r_i,
        {
            proof {
                assert(r_i * width + col < width * height) by (nonlinear_arith)
                    requires
                        0 <= r_i < height,
                        0 <= col < width,
                ;
                lemma_flat_index(r_i as int, col as int, width as int);
            }
            column.push(out[r_i * width + col]);
            r_i = r_i + 1;
        }
        proof {
            lemma_div_multiples_vanish(height as int, width as int);
            lemma_mul_is_commutative(width as int, height as int);
            assert(column@ =~= column_of(orig, width as nat, col as int));
        }
        serial_fft_raw(&mut column, twiddles, log_height);
        let ghost fft_col = wf_fft_of(column_of(orig, width as nat, col as int), log_height as nat);
        proof {
            assert(column@ == fft_col);
            assert(fft_col.len() == height);
        }
        let ghost out_before = out@;
        let mut r_i: usize = 0;
        while r_i < height
            invariant
                r_i <= height,
                col < width,
                column@ == fft_col,
                column@.len() == height,
                out@.len() == n,
                n == width * height,
                width >= 1,
                forall|j: int| 0 <= j < height ==> (#[trigger] column@[j]) < GOLDILOCKS_P,
                forall|i: int| 0 <= i < n ==> (#[trigger] out@[i]) < GOLDILOCKS_P,
                forall|i: int|
                    0 <= i < n && !(i % (width as int) == col && i / (width as int) < r_i)
                        ==> (#[trigger] out@[i]) == out_before[i],
                forall|i: int|
                    0 <= i < n && i % (width as int) == col && i / (width as int) < r_i
                        ==> (#[trigger] out@[i]) == fft_col[i / (width as int)],
            decreases height - r_i,
        {
            proof {
                assert(r_i * width + col < width * height) by (nonlinear_arith)
                    requires
                        0 <= r_i < height,
                        0 <= col < width,
                ;
                lemma_flat_index(r_i as int, col as int, width as int);
            }
            out[r_i * width + col] = column[r_i];
            proof {
                assert forall|i: int|
                    0 <= i < n && i % (width as int) == col && i / (width as int) < r_i
                        + 1 implies out@[i] == fft_col[i / (width as int)] by {
                    lemma_row_col_bounds(i, width as int, height as int);
                }
            }
            r_i = r_i + 1;
        }
        proof {
            assert forall|i: int| 0 <= i < n && i % (width as int) >= col + 1 implies out@[i]
                == orig[i] by {
                lemma_row_col_bounds(i, width as int, height as int);
            }
            assert forall|i: int| 0 <= i < n && i % (width as int) < col + 1 implies out@[i]
                == wf_fft_of(
                column_of(orig, width as nat, i % (width as int)),
                log_height as nat,
            )[i / (width as int)] by {
                lemma_row_col_bounds(i, width as int, height as int);
            }
        }
        col = col + 1;
    }
    let result = Workload { values: out, width };
    proof {
        vstd::arithmetic::div_mod::lemma_mod_multiples_basic(height as int, width as int);
        lemma_div_multiples_vanish(height as int, width as int);
        lemma_mul_is_commutative(width as int, height as int);
        assert forall|c: int| 0 <= c < width implies #[trigger] column_of(
            result.values@,
            width as nat,
            c,
        ) == wf_fft_of(column_of(orig, width as nat, c), log_height as nat) by {
            let lhs = column_of(result.values@, width as nat, c);
            let rhs = wf_fft_of(column_of(orig, width as nat, c), log_height as nat);
            assert(lhs.len() == height);
            assert(rhs.len() == height);
            assert forall|rr: int| 0 <= rr < height implies lhs[rr] == rhs[rr] by {
                assert(rr * (width as int) + c < n) by (nonlinear_arith)
                    requires
                        0 <= rr < height,
                        0 <= c < width,
                        n == width * height,
                ;
                lemma_flat_index(rr, c, width as int);
            }
            assert(lhs =~= rhs);
        }
    }
    result
}

/// Blake3-256 digest of one leaf's bytes.
pub fn hash_leaf(bytes: &Vec<u8>) -> (r: Vec<u8>)
    ensures
        r@.len() == 32,
        r@ == blake3_digest_of(bytes@),
{
    blake3_hash_raw(bytes)
}

/// Merkle root over a power-of-two number of 32-byte leaf digests.
pub fn merkle_root(leaves: &Vec<Vec<u8>>, log_count: u32) -> (r: Vec<u8>)
    requires
        1 <= log_count,
        leaves@.len() == pow2(log_count as nat),
        forall|i: int| 0 <= i < leaves@.len() ==> (#[trigger] leaves@[i])@.len() == 32,
    ensures
        r@.len() == 32,
        r@ == wf_root_of(leaves@.map_values(|l: Vec<u8>| l@)),
{
    merkle_root_raw(leaves, log_count)
}

/// Building this backend's tree over equal leaf digests yields equal roots.
pub proof fn lemma_merkle_root_deterministic(
    l1: Seq<Seq<u8>>,
    l2: Seq<Seq<u8>>,
    r1: Seq<u8>,
    r2: Seq<u8>,
)
    requires
        l1 == l2,
        r1 == wf_root_of(l1),
        r2 == wf_root_of(l2),
    ensures
        r1 == r2,
{
}

} // verus!
