use vstd::prelude::*;
use vstd::arithmetic::div_mod::{
    lemma_div_multiples_vanish, lemma_div_multiples_vanish_fancy, lemma_div_pos_is_pos,
    lemma_fundamental_div_mod, lemma_mod_bound, lemma_mod_multiples_basic,
    lemma_mod_multiples_vanish, lemma_small_mod,
};
use vstd::arithmetic::mul::{lemma_mul_inequality, lemma_mul_is_commutative};
use crate::field::{field_reduce, GOLDILOCKS_P};

verus! {

/// Offset added to the generated indices of hash workloads, to avoid feeding the
/// hash function degenerate small values.
pub const HASH_INPUT_OFFSET: u64 = 0x0080_0000_0000_0000;

/// A row-major matrix of canonical field values; `width` columns stand for
/// independently processed lanes.
pub struct Workload {
    pub values: Vec<u64>,
    pub width: usize,
}

impl Workload {
    /// Well-formedness: at least one column, whole rows only, canonical values.
    pub open spec fn wf(&self) -> bool {
        &&& self.width >= 1
        &&& self.values@.len() % (self.width as nat) == 0
        &&& forall|i: int| 0 <= i < self.values@.len() ==> self.values@[i] < GOLDILOCKS_P
    }

    pub open spec fn rows(&self) -> nat {
        self.values@.len() / (self.width as nat)
    }
}

/// Column `c` of a row-major value sequence with `width` columns.
pub open spec fn column_of(values: Seq<u64>, width: nat, c: int) -> Seq<u64> {
    Seq::new(values.len() / width, |r: int| values[r * width + c])
}

/// Where a (row, column) pair sits in the row-major layout.
pub proof fn lemma_flat_index(r: int, c: int, width: int)
    requires
        0 <= r,
        0 <= c < width,
    ensures
        (r * width + c) % width == c,
        (r * width + c) / width == r,
{
    lemma_mul_is_commutative(r, width);
    lemma_div_multiples_vanish_fancy(r, c, width);
    lemma_mod_multiples_vanish(r, c, width);
    lemma_small_mod(c as nat, width as nat);
}

/// Every flat index of a `width * height` layout decomposes into a row below the
/// height and a column below the width.
pub proof fn lemma_row_col_bounds(i: int, width: int, height: int)
    requires
        0 <= i < width * height,
        1 <= width,
    ensures
        0 <= i % width < width,
        0 <= i / width < height,
        i == (i / width) * width + (i % width),
{
    lemma_fundamental_div_mod(i, width);
    lemma_mod_bound(i, width);
    lemma_div_pos_is_pos(i, width);
    lemma_mul_is_commutative(width, i / width);
    if i / width >= height {
        lemma_mul_inequality(height, i / width, width);
        lemma_mul_is_commutative(height, width);
    }
}

/// The element sequence of arithmetic workloads: index `i` maps to the canonical
/// representative of `i`.
pub open spec fn element_seq(count: nat) -> Seq<u64> {
    Seq::new(count, |i: int| field_reduce(i) as u64)
}

/// The element sequence of hash workloads: index `i` maps to the canonical
/// representative of `HASH_INPUT_OFFSET + i`.
pub open spec fn offset_element_seq(count: nat) -> Seq<u64> {
    Seq::new(count, |i: int| field_reduce(HASH_INPUT_OFFSET as int + i) as u64)
}

/// The deterministic element sequence for arithmetic workloads: index `i` maps to
/// the canonical representative of `i`.
pub fn generate_elements(count: usize) -> (r: Vec<u64>)
    ensures
        r@.len() == count,
        r@ == element_seq(count as nat),
        forall|i: int| 0 <= i < count ==> (#[trigger] r@[i]) as int == field_reduce(i),
        forall|i: int| 0 <= i < count ==> (#[trigger] r@[i]) < GOLDILOCKS_P,
{
    let mut r: Vec<u64> = Vec::new();
    let mut i: usize = 0;
    while i < count
        invariant
            i <= count,
            r@.len() == i,
            forall|j: int| 0 <= j < i ==> (#[trigger] r@[j]) as int == field_reduce(j),
            forall|j: int| 0 <= j < i ==> (#[trigger] r@[j]) < GOLDILOCKS_P,
        decreases count - i,
    {
        r.push((i as u64) % GOLDILOCKS_P);
        i = i + 1;
    }
    proof {
        assert forall|i: int| 0 <= i < count implies r@[i] == element_seq(count as nat)[i] by {
            lemma_mod_bound(i, GOLDILOCKS_P as int);
        }
        assert(r@ =~= element_seq(count as nat));
    }
    r
}

/// The deterministic element sequence for hash workloads: index `i` maps to the
/// canonical representative of `HASH_INPUT_OFFSET + i`.
pub fn generate_offset_elements(count: usize) -> (r: Vec<u64>)
    requires
        count as int + HASH_INPUT_OFFSET as int <= u64::MAX as int,
    ensures
        r@.len() == count,
        r@ == offset_element_seq(count as nat),
        forall|i: int| 0 <= i < count ==> (#[trigger] r@[i]) as int == field_reduce(
            HASH_INPUT_OFFSET as int + i,
        ),
        forall|i: int| 0 <= i < count ==> (#[trigger] r@[i]) < GOLDILOCKS_P,
{
    let mut r: Vec<u64> = Vec::new();
    let mut i: usize = 0;
    while i < count
        invariant
            i <= count,
            count as int + HASH_INPUT_OFFSET as int <= u64::MAX as int,
            r@.len() == i,
            forall|j: int| 0 <= j < i ==> (#[trigger] r@[j]) as int == field_reduce(
                HASH_INPUT_OFFSET as int + j,
            ),
            forall|j: int| 0 <= j < i ==> (#[trigger] r@[j]) < GOLDILOCKS_P,
        decreases count - i,
    {
        r.push((HASH_INPUT_OFFSET + i as u64) % GOLDILOCKS_P);
        i = i + 1;
    }
    proof {
        assert forall|i: int| 0 <= i < count implies r@[i] == offset_element_seq(count as nat)[i]
            by {
            lemma_mod_bound(HASH_INPUT_OFFSET as int + i, GOLDILOCKS_P as int);
        }
        assert(r@ =~= offset_element_seq(count as nat));
    }
    r
}

/// `rows * cols` generated elements laid out row-major with `cols` columns.
pub fn generate_matrix(rows: usize, cols: usize) -> (w: Workload)
    requires
        cols >= 1,
        rows * cols <= usize::MAX,
    ensures
        w.wf(),
        w.width == cols,
        w.values@.len() == rows * cols,
        w.rows() == rows,
        w.values@ == element_seq((rows * cols) as nat),
        forall|i: int| 0 <= i < w.values@.len() ==> (#[trigger] w.values@[i]) as int
            == field_reduce(i),
{
    let n: usize = rows * cols;
    let values = generate_elements(n);
    let w = Workload { values, width: cols };
    proof {
        lemma_mod_multiples_basic(rows as int, cols as int);
        lemma_div_multiples_vanish(rows as int, cols as int);
        vstd::arithmetic::mul::lemma_mul_is_commutative(cols as int, rows as int);
        assert(w.values@.len() % (w.width as nat) == 0);
        assert(w.rows() == rows);
    }
    w
}

/// `rows * cols` offset-generated elements laid out row-major with `cols` columns;
/// the hash-workload counterpart of `generate_matrix`.
pub fn generate_offset_matrix(rows: usize, cols: usize) -> (w: Workload)
    requires
        cols >= 1,
        rows * cols <= usize::MAX,
        rows * cols + HASH_INPUT_OFFSET as int <= u64::MAX as int,
    ensures
        w.wf(),
        w.width == cols,
        w.values@.len() == rows * cols,
        w.rows() == rows,
        w.values@ == offset_element_seq((rows * cols) as nat),
{
    let n: usize = rows * cols;
    let values = generate_offset_elements(n);
    let w = Workload { values, width: cols };
    proof {
        lemma_mod_multiples_basic(rows as int, cols as int);
        lemma_div_multiples_vanish(rows as int, cols as int);
        vstd::arithmetic::mul::lemma_mul_is_commutative(cols as int, rows as int);
        assert(w.values@.len() % (w.width as nat) == 0);
        assert(w.rows() == rows);
    }
    w
}

/// Workload generation is pure: any two sequences that satisfy the generator's
/// contract for the same count are equal.
pub proof fn lemma_generate_elements_deterministic(r1: Seq<u64>, r2: Seq<u64>, count: nat)
    requires
        r1.len() == count,
        r2.len() == count,
        forall|i: int| 0 <= i < count ==> (#[trigger] r1[i]) as int == field_reduce(i),
        forall|i: int| 0 <= i < count ==> (#[trigger] r2[i]) as int == field_reduce(i),
    ensures
        r1 == r2,
{
    assert(r1 =~= r2);
}

/// Matrix generation is pure: any two workloads that satisfy the generator's
/// contract for the same shape have equal values and equal widths.
pub proof fn lemma_generate_matrix_deterministic(w1: &Workload, w2: &Workload, rows: nat, cols: nat)
    requires
        w1.width == cols,
        w2.width == cols,
        w1.values@.len() == rows * cols,
        w2.values@.len() == rows * cols,
        forall|i: int| 0 <= i < w1.values@.len() ==> (#[trigger] w1.values@[i]) as int
            == field_reduce(i),
        forall|i: int| 0 <= i < w2.values@.len() ==> (#[trigger] w2.values@[i]) as int
            == field_reduce(i),
    ensures
        w1.values@ == w2.values@,
        w1.width == w2.width,
{
    assert(w1.values@ =~= w2.values@);
}

} // verus!
