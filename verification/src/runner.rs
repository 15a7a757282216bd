use vstd::prelude::*;
use vstd::arithmetic::div_mod::lemma_div_multiples_vanish;
use vstd::arithmetic::power2::{lemma2_to64, lemma_pow2_adds, lemma_pow2_strictly_increases, pow2};
use vstd::bits::lemma_usize_shl_is_mul;
use crate::backend_p3;
use crate::backend_wf;
use crate::backend_p3::p3_root_of;
use crate::backend_wf::{blake3_digest_of, wf_root_of};
use crate::bytes::{build_single_leaf_bytes, le_bytes_of_elements, serialize_range, single_leaf_bytes};
use crate::field::{mul_chain, GOLDILOCKS_P};
use crate::report::{format_count_line, format_pow2_line, log_line};
use crate::timing::{clock_now, micros_between, TimingSample};
use crate::workload::{
    generate_matrix, generate_offset_elements, generate_offset_matrix, offset_element_seq,
};

verus! {

/// Number of lanes batched into the wide variant of the FFT and commitment cases.
pub const BATCH_LANES: usize = 80;

/// Largest accepted size exponent: the wide workloads must stay addressable.
pub const MAX_LOG_SIZE: u32 = 25;

/// Outcome of one multiplication benchmark case.
pub struct MulRecord {
    pub iterations: u32,
    pub product: u64,
    pub sample: TimingSample,
}

/// Outcome of one FFT benchmark case.
pub struct FftRecord {
    pub log_size: u32,
    pub lanes: u64,
    pub rows: u64,
    pub workload_len: u64,
    pub sample: TimingSample,
}

/// Outcome of one Merkle commitment benchmark case. The wide variant of the
/// second backend also reports the leaf-hashing pass as a separate sub-timing.
pub struct MerkleRecord {
    pub log_leaf_count: u32,
    pub lanes: u64,
    pub leaf_count: u64,
    pub root: Vec<u8>,
    pub leaf_hash_micros: Option<u64>,
    pub sample: TimingSample,
}

/// The leaf digests of the single-lane hash workload: each generated value,
/// serialized into its padded 32-byte buffer, hashed.
pub open spec fn wf_single_leaf_digests(count: nat) -> Seq<Seq<u8>> {
    Seq::new(count, |i: int| blake3_digest_of(single_leaf_bytes(offset_element_seq(count)[i])))
}

/// The leaf digests of the wide hash workload: each run of `BATCH_LANES`
/// consecutive generated values, serialized little-endian, hashed.
pub open spec fn wf_chunk_leaf_digests(count: nat) -> Seq<Seq<u8>> {
    Seq::new(
        count,
        |c: int|
            blake3_digest_of(
                le_bytes_of_elements(
                    offset_element_seq(count * BATCH_LANES as nat).subrange(
                        c * BATCH_LANES as int,
                        c * BATCH_LANES as int + BATCH_LANES as int,
                    ),
                ),
            ),
    )
}

/// `2^k` as a machine size.
fn pow2_usize(k: u32) -> (r: usize)
    requires
        k <= MAX_LOG_SIZE,
    ensures
        r == pow2(k as nat),
        1 <= r <= 0x2000000,
{
    proof {
        lemma2_to64();
        if k < 25 {
            lemma_pow2_strictly_increases(k as nat, 25);
        }
        lemma_usize_shl_is_mul(1, k as usize);
    }
    1usize << (k as usize)
}

/// Times `iterations` multiplications through the first backend, folding each
/// product into an accumulator that starts at the first seed.
pub fn run_p3_mul(iterations: u32) -> (r: MulRecord)
    ensures
        r.iterations == iterations,
        r.product as int == mul_chain(12345, 67890, iterations as nat),
{
    let start = clock_now();
    let mut acc: u64 = 12345;
    let mut i: u32 = 0;
    while i < iterations
        invariant
            i <= iterations,
            acc as int == mul_chain(12345, 67890, i as nat),
            acc < GOLDILOCKS_P,
        decreases iterations - i,
    {
        acc = backend_p3::multiply(acc, 67890);
        let _ = core::hint::black_box(&acc);
        i = i + 1;
    }
    let end = clock_now();
    MulRecord {
        iterations,
        product: acc,
        sample: TimingSample { elapsed_micros: micros_between(&start, &end) },
    }
}

/// Times `iterations` multiplications through the second backend, folding each
/// product into an accumulator that starts at the first seed.
pub fn run_wf_mul(iterations: u32) -> (r: MulRecord)
    ensures
        r.iterations == iterations,
        r.product as int == mul_chain(12345, 67890, iterations as nat),
{
    let start = clock_now();
    let mut acc: u64 = 12345;
    let mut i: u32 = 0;
    while i < iterations
        invariant
            i <= iterations,
            acc as int == mul_chain(12345, 67890, i as nat),
            acc < GOLDILOCKS_P,
        decreases iterations - i,
    {
        acc = backend_wf::multiply(acc, 67890);
        let _ = core::hint::black_box(&acc);
        i = i + 1;
    }
    let end = clock_now();
    MulRecord {
        iterations,
        product: acc,
        sample: TimingSample { elapsed_micros: micros_between(&start, &end) },
    }
}

/// Runs the first backend's FFT case: a single-lane and a wide workload of
/// `2^log_size` rows each, timed independently.
pub fn run_p3_fft(log_size: u32) -> (r: (FftRecord, FftRecord))
    requires
        log_size <= MAX_LOG_SIZE,
    ensures
        r.0.log_size == log_size,
        r.0.lanes == 1,
        r.0.rows == pow2(log_size as nat),
        r.0.workload_len == pow2(log_size as nat),
        r.1.log_size == log_size,
        r.1.lanes == BATCH_LANES,
        r.1.rows == pow2(log_size as nat),
        r.1.workload_len == BATCH_LANES * pow2(log_size as nat),
{
    let rows = pow2_usize(log_size);

    let w1 = generate_matrix(rows, 1);
    let start = clock_now();
    let out1 = backend_p3::forward_fft(&w1, log_size);
    let _ = core::hint::black_box(&out1);
    let end = clock_now();
    let rec1 = FftRecord {
        log_size,
        lanes: 1,
        rows: rows as u64,
        workload_len: rows as u64,
        sample: TimingSample { elapsed_micros: micros_between(&start, &end) },
    };

    proof {
        assert(rows * BATCH_LANES <= usize::MAX && rows * BATCH_LANES <= 0xffffffff)
            by (nonlinear_arith)
            requires
                1 <= rows <= 0x2000000,
                usize::MAX >= 0xffffffff,
        ;
    }
    let w80 = generate_matrix(rows, BATCH_LANES);
    proof {
        vstd::arithmetic::mul::lemma_mul_is_commutative(rows as int, BATCH_LANES as int);
    }
    let start = clock_now();
    let out80 = backend_p3::forward_fft(&w80, log_size);
    let _ = core::hint::black_box(&out80);
    let end = clock_now();
    let rec80 = FftRecord {
        log_size,
        lanes: BATCH_LANES as u64,
        rows: rows as u64,
        workload_len: (rows * BATCH_LANES) as u64,
        sample: TimingSample { elapsed_micros: micros_between(&start, &end) },
    };
    (rec1, rec80)
}

/// Runs the second backend's FFT case: twiddle precomputation timed on its own,
/// then a single-lane and a wide workload of `2^log_size` rows each.
pub fn run_wf_fft(log_size: u32) -> (r: (FftRecord, FftRecord, u64))
    requires
        log_size <= MAX_LOG_SIZE,
    ensures
        r.0.log_size == log_size,
        r.0.lanes == 1,
        r.0.rows == pow2(log_size as nat),
        r.0.workload_len == pow2(log_size as nat),
        r.1.log_size == log_size,
        r.1.lanes == BATCH_LANES,
        r.1.rows == pow2(log_size as nat),
        r.1.workload_len == BATCH_LANES * pow2(log_size as nat),
{
    let rows = pow2_usize(log_size);

    let start = clock_now();
    let twiddles = backend_wf::prepare_twiddles(rows, log_size);
    let _ = core::hint::black_box(&twiddles);
    let end = clock_now();
    let twiddle_micros = micros_between(&start, &end);
    proof {
        lemma2_to64();
        if log_size >= 1 {
            lemma_pow2_adds(1, (log_size - 1) as nat);
            lemma_div_multiples_vanish(pow2((log_size - 1) as nat) as int, 2);
            assert(twiddles@.len() * 2 == pow2(log_size as nat));
        }
    }

    let w1 = generate_matrix(rows, 1);
    let start = clock_now();
    let out1 = backend_wf::forward_fft(&w1, &twiddles, log_size);
    let _ = core::hint::black_box(&out1);
    let end = clock_now();
    let rec1 = FftRecord {
        log_size,
        lanes: 1,
        rows: rows as u64,
        workload_len: rows as u64,
        sample: TimingSample { elapsed_micros: micros_between(&start, &end) },
    };

    proof {
        assert(rows * BATCH_LANES <= usize::MAX && rows * BATCH_LANES <= 0xffffffff)
            by (nonlinear_arith)
            requires
                1 <= rows <= 0x2000000,
                usize::MAX >= 0xffffffff,
        ;
    }
    let w80 = generate_matrix(rows, BATCH_LANES);
    proof {
        vstd::arithmetic::mul::lemma_mul_is_commutative(rows as int, BATCH_LANES as int);
    }
    let start = clock_now();
    let out80 = backend_wf::forward_fft(&w80, &twiddles, log_size);
    let _ = core::hint::black_box(&out80);
    let end = clock_now();
    let rec80 = FftRecord {
        log_size,
        lanes: BATCH_LANES as u64,
        rows: rows as u64,
        workload_len: (rows * BATCH_LANES) as u64,
        sample: TimingSample { elapsed_micros: micros_between(&start, &end) },
    };
    (rec1, rec80, twiddle_micros)
}

/// Runs the first backend's commitment case: a single-lane and a wide hash
/// workload over `2^log_leaf_count` leaves each, timed independently.
pub fn run_p3_merkle(log_leaf_count: u32) -> (r: (MerkleRecord, MerkleRecord))
    requires
        log_leaf_count <= MAX_LOG_SIZE,
    ensures
        r.0.log_leaf_count == log_leaf_count,
        r.0.lanes == 1,
        r.0.leaf_count == pow2(log_leaf_count as nat),
        r.0.root@.len() == 32,
        r.0.root@ == p3_root_of(offset_element_seq(pow2(log_leaf_count as nat)), 1),
        r.0.leaf_hash_micros is None,
        r.1.log_leaf_count == log_leaf_count,
        r.1.lanes == BATCH_LANES,
        r.1.leaf_count == pow2(log_leaf_count as nat),
        r.1.root@.len() == 32,
        r.1.root@ == p3_root_of(
            offset_element_seq((BATCH_LANES * pow2(log_leaf_count as nat)) as nat),
            BATCH_LANES as nat,
        ),
        r.1.leaf_hash_micros is None,
{
    let rows = pow2_usize(log_leaf_count);

    let w1 = generate_offset_matrix(rows, 1);
    let start = clock_now();
    let root1 = backend_p3::commit(&w1, log_leaf_count);
    let _ = core::hint::black_box(&root1);
    let end = clock_now();
    let rec1 = MerkleRecord {
        log_leaf_count,
        lanes: 1,
        leaf_count: rows as u64,
        root: root1,
        leaf_hash_micros: None,
        sample: TimingSample { elapsed_micros: micros_between(&start, &end) },
    };

    proof {
        assert(rows * BATCH_LANES <= usize::MAX && rows * BATCH_LANES <= 0xffffffff)
            by (nonlinear_arith)
            requires
                1 <= rows <= 0x2000000,
                usize::MAX >= 0xffffffff,
        ;
    }
    let w80 = generate_offset_matrix(rows, BATCH_LANES);
    proof {
        vstd::arithmetic::mul::lemma_mul_is_commutative(rows as int, BATCH_LANES as int);
    }
    let start = clock_now();
    let root80 = backend_p3::commit(&w80, log_leaf_count);
    let _ = core::hint::black_box(&root80);
    let end = clock_now();
    let rec80 = MerkleRecord {
        log_leaf_count,
        lanes: BATCH_LANES as u64,
        leaf_count: rows as u64,
        root: root80,
        leaf_hash_micros: None,
        sample: TimingSample { elapsed_micros: micros_between(&start, &end) },
    };
    (rec1, rec80)
}

/// Runs the second backend's commitment case: a single-lane workload whose leaves
/// are hashed one value at a time, and a wide workload hashed in `BATCH_LANES`
/// element chunks with the leaf-hashing pass timed separately; each tree holds
/// `2^log_leaf_count` leaves.
pub fn run_wf_merkle(log_leaf_count: u32) -> (r: (MerkleRecord, MerkleRecord))
    requires
        1 <= log_leaf_count <= MAX_LOG_SIZE,
    ensures
        r.0.log_leaf_count == log_leaf_count,
        r.0.lanes == 1,
        r.0.leaf_count == pow2(log_leaf_count as nat),
        r.0.root@.len() == 32,
        r.0.root@ == wf_root_of(wf_single_leaf_digests(pow2(log_leaf_count as nat))),
        r.0.leaf_hash_micros is None,
        r.1.log_leaf_count == log_leaf_count,
        r.1.lanes == BATCH_LANES,
        r.1.leaf_count == pow2(log_leaf_count as nat),
        r.1.root@.len() == 32,
        r.1.root@ == wf_root_of(wf_chunk_leaf_digests(pow2(log_leaf_count as nat))),
        r.1.leaf_hash_micros is Some,
{
    let rows = pow2_usize(log_leaf_count);

    let vals = generate_offset_elements(rows);
    let mut digests: Vec<Vec<u8>> = Vec::new();
    let mut i: usize = 0;
    while i < rows
        invariant
            i <= rows,
            vals@.len() == rows,
            vals@ == offset_element_seq(rows as nat),
            digests@.len() == i,
            forall|j: int| 0 <= j < i ==> (#[trigger] digests@[j])@ == blake3_digest_of(
                single_leaf_bytes(vals@[j]),
            ),
            forall|j: int| 0 <= j < i ==> (#[trigger] digests@[j])@.len() == 32,
        decreases rows - i,
    {
        let leaf = build_single_leaf_bytes(vals[i]);
        let d = backend_wf::hash_leaf(&leaf);
        digests.push(d);
        i = i + 1;
    }
    let start = clock_now();
    let root1 = backend_wf::merkle_root(&digests, log_leaf_count);
    let _ = core::hint::black_box(&root1);
    let end = clock_now();
    proof {
        assert(digests@.map_values(|l: Vec<u8>| l@) =~= wf_single_leaf_digests(rows as nat));
    }
    let rec1 = MerkleRecord {
        log_leaf_count,
        lanes: 1,
        leaf_count: rows as u64,
        root: root1,
        leaf_hash_micros: None,
        sample: TimingSample { elapsed_micros: micros_between(&start, &end) },
    };

    proof {
        assert(rows * BATCH_LANES <= usize::MAX && rows * BATCH_LANES <= 0xffffffff)
            by (nonlinear_arith)
            requires
                1 <= rows <= 0x2000000,
                usize::MAX >= 0xffffffff,
        ;
    }
    let n80: usize = rows * BATCH_LANES;
    let vals80 = generate_offset_elements(n80);
    let mut digests80: Vec<Vec<u8>> = Vec::new();
    let start = clock_now();
    let mut c: usize = 0;
    while c < rows
        invariant
            c <= rows,
            1 <= rows <= 0x2000000,
            n80 == rows * BATCH_LANES,
            vals80@.len() == n80,
            vals80@ == offset_element_seq(n80 as nat),
            digests80@.len() == c,
            forall|j: int| 0 <= j < c ==> (#[trigger] digests80@[j])@ == blake3_digest_of(
                le_bytes_of_elements(
                    vals80@.subrange(j * BATCH_LANES as int, j * BATCH_LANES as int + BATCH_LANES as int),
                ),
            ),
            forall|j: int| 0 <= j < c ==> (#[trigger] digests80@[j])@.len() == 32,
        decreases rows - c,
    {
        proof {
            assert(c * BATCH_LANES + BATCH_LANES <= n80 && c * BATCH_LANES <= n80)
                by (nonlinear_arith)
                requires
                    0 <= c < rows,
                    n80 == rows * BATCH_LANES,
                    BATCH_LANES >= 1,
            ;
        }
        let bytes = serialize_range(&vals80, c * BATCH_LANES, BATCH_LANES);
        let d = backend_wf::hash_leaf(&bytes);
        digests80.push(d);
        c = c + 1;
    }
    let _ = core::hint::black_box(&digests80);
    let end = clock_now();
    let leaf_hash_micros = micros_between(&start, &end);

    let start = clock_now();
    let root80 = backend_wf::merkle_root(&digests80, log_leaf_count);
    let _ = core::hint::black_box(&root80);
    let end = clock_now();
    proof {
        assert(digests80@.map_values(|l: Vec<u8>| l@) =~= wf_chunk_leaf_digests(rows as nat));
    }
    let rec80 = MerkleRecord {
        log_leaf_count,
        lanes: BATCH_LANES as u64,
        leaf_count: rows as u64,
        root: root80,
        leaf_hash_micros: Some(leaf_hash_micros),
        sample: TimingSample { elapsed_micros: micros_between(&start, &end) },
    };
    (rec1, rec80)
}

/// Times `iterations` field multiplications of the fixed seeds through the first
/// backend and reports the elapsed time.
pub fn bench_p3_goldilocks_mul(iterations: u32) {
    let rec = run_p3_mul(iterations);
    let line = format_count_line(
        "[p3] goldilocks_mul: ",
        rec.sample.elapsed_micros,
        rec.iterations as u64,
        " iterations",
    );
    log_line(&line);
}

/// Times `iterations` field multiplications of the fixed seeds through the second
/// backend and reports the elapsed time.
pub fn bench_winterfell_goldilocks_mul(iterations: u32) {
    let rec = run_wf_mul(iterations);
    let line = format_count_line(
        "[wf] goldilocks_mul: ",
        rec.sample.elapsed_micros,
        rec.iterations as u64,
        " iterations",
    );
    log_line(&line);
}

/// Times the first backend's forward FFT over a single-lane and a wide workload of
/// `2^log_size` rows and reports both measurements.
pub fn bench_p3_fft(log_size: u32)
    requires
        log_size <= MAX_LOG_SIZE,
{
    let (rec1, rec80) = run_p3_fft(log_size);
    let line1 = format_pow2_line(
        "[p3]  1 poly fft: ",
        rec1.sample.elapsed_micros,
        " ms for size 2^",
        rec1.log_size,
        rec1.rows,
    );
    log_line(&line1);
    let line80 = format_pow2_line(
        "[p3] 80 poly fft: ",
        rec80.sample.elapsed_micros,
        " ms for size 2^",
        rec80.log_size,
        rec80.rows,
    );
    log_line(&line80);
}

/// Times the second backend's twiddle precomputation and forward FFT over a
/// single-lane and a wide workload of `2^log_size` rows and reports each
/// measurement.
pub fn bench_winterfell_fft(log_size: u32)
    requires
        log_size <= MAX_LOG_SIZE,
{
    let (rec1, rec80, twiddle_micros) = run_wf_fft(log_size);
    let twiddle_line = format_pow2_line(
        "[wf] fft: ",
        twiddle_micros,
        " ms to compute twiddles for size 2^",
        rec1.log_size,
        rec1.rows,
    );
    log_line(&twiddle_line);
    let line1 = format_pow2_line(
        "[wf] fft: ",
        rec1.sample.elapsed_micros,
        " ms for size 2^",
        rec1.log_size,
        rec1.rows,
    );
    log_line(&line1);
    let line80 = format_pow2_line(
        "[wf] 80 poly fft: ",
        rec80.sample.elapsed_micros,
        " ms for size 2^",
        rec80.log_size,
        rec80.rows,
    );
    log_line(&line80);
}

/// Times the first backend's Merkle commitment over a single-lane and a wide hash
/// workload of `2^log_leaf_count` leaves and reports both measurements.
pub fn bench_p3_merkle_tree(log_leaf_count: u32)
    requires
        log_leaf_count <= MAX_LOG_SIZE,
{
    let (rec1, rec80) = run_p3_merkle(log_leaf_count);
    let line1 = format_count_line(
        "[p3] merkle tree  1 col: ",
        rec1.sample.elapsed_micros,
        rec1.leaf_count,
        " leaves",
    );
    log_line(&line1);
    let line80 = format_count_line(
        "[p3] merkle tree 80 col: ",
        rec80.sample.elapsed_micros,
        rec80.leaf_count,
        " leaves",
    );
    log_line(&line80);
}

/// Times the second backend's Merkle tree over a single-lane and a wide hash
/// workload of `2^log_leaf_count` leaves, reporting the wide leaf-hashing pass as
/// its own measurement.
pub fn bench_winterfell_merkle_tree(log_leaf_count: u32)
    requires
        1 <= log_leaf_count <= MAX_LOG_SIZE,
{
    let (rec1, rec80) = run_wf_merkle(log_leaf_count);
    let line1 = format_count_line(
        "[wf] merkle tree 1 col: ",
        rec1.sample.elapsed_micros,
        rec1.leaf_count,
        " leaves",
    );
    log_line(&line1);
    if let Some(hash_micros) = rec80.leaf_hash_micros {
        let hash_line = format_count_line(
            "[wf] merkle tree 80 col leave hash: ",
            hash_micros,
            rec80.leaf_count,
            " leaves",
        );
        log_line(&hash_line);
    }
    let line80 = format_count_line(
        "[wf] merkle tree 80 col: ",
        rec80.sample.elapsed_micros,
        rec80.leaf_count,
        " leaves",
    );
    log_line(&line80);
}

} // verus!
