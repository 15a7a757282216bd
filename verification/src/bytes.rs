use vstd::prelude::*;
use vstd::arithmetic::div_mod::{lemma_div_multiples_vanish_fancy, lemma_mod_multiples_vanish, lemma_small_mod};
use vstd::bytes::{spec_u64_to_le_bytes, u64_to_le_bytes};

verus! {

/// The 32-byte hash input that stands for a single field value: its eight
/// little-endian bytes followed by twenty-four zero bytes.
pub open spec fn single_leaf_bytes(v: u64) -> Seq<u8> {
    spec_u64_to_le_bytes(v) + Seq::new(24, |i: int| 0u8)
}

/// The canonical little-endian serialization of a sequence of field values: the
/// eight little-endian bytes of each value, in order.
pub open spec fn le_bytes_of_elements(vals: Seq<u64>) -> Seq<u8> {
    Seq::new(vals.len() * 8, |i: int| spec_u64_to_le_bytes(vals[i / 8])[i % 8])
}

/// Builds the 32-byte hash input for a single field value.
pub fn build_single_leaf_bytes(v: u64) -> (r: Vec<u8>)
    ensures
        r@ == single_leaf_bytes(v),
        r@.len() == 32,
{
    proof {
        vstd::bytes::lemma_auto_spec_u64_to_from_le_bytes();
    }
    let mut r = u64_to_le_bytes(v);
    let mut i: usize = 0;
    while i < 24
        invariant
            i <= 24,
            r@.len() == 8 + i,
            r@.subrange(0, 8) == spec_u64_to_le_bytes(v),
            forall|j: int| 8 <= j < r@.len() ==> r@[j] == 0u8,
        decreases 24 - i,
    {
        r.push(0u8);
        proof {
            assert(r@.subrange(0, 8) =~= spec_u64_to_le_bytes(v));
        }
        i = i + 1;
    }
    proof {
        assert(r@ =~= single_leaf_bytes(v));
    }
    r
}

/// Serializes `count` consecutive values of `vals`, starting at `start`, into
/// their contiguous little-endian byte representation.
pub fn serialize_range(vals: &Vec<u64>, start: usize, count: usize) -> (r: Vec<u8>)
    requires
        start + count <= vals@.len(),
    ensures
        r@ == le_bytes_of_elements(vals@.subrange(start as int, start as int + count)),
        r@.len() == count * 8,
{
    let ghost window = vals@.subrange(start as int, start as int + count);
    let n: usize = vals.len();
    let mut r: Vec<u8> = Vec::new();
    let mut j: usize = 0;
    while j < count
        invariant
            j <= count,
            start + count <= n,
            n == vals@.len(),
            window == vals@.subrange(start as int, start as int + count),
            r@.len() == j * 8,
            forall|i: int| 0 <= i < r@.len() ==> (#[trigger] r@[i]) == spec_u64_to_le_bytes(
                window[i / 8],
            )[i % 8],
        decreases count - j,
    {
        let bytes = u64_to_le_bytes(vals[start + j]);
        let mut k: usize = 0;
        while k < 8
            invariant
                k <= 8,
                j < count,
                start + count <= n,
                n == vals@.len(),
                window == vals@.subrange(start as int, start as int + count),
                bytes@ == spec_u64_to_le_bytes(window[j as int]),
                bytes@.len() == 8,
                r@.len() == j * 8 + k,
                forall|i: int| 0 <= i < j * 8 ==> (#[trigger] r@[i]) == spec_u64_to_le_bytes(
                    window[i / 8],
                )[i % 8],
                forall|i: int| j * 8 <= i < r@.len() ==> (#[trigger] r@[i]) == bytes@[i - j * 8],
            decreases 8 - k,
        {
            r.push(bytes[k]);
            k = k + 1;
        }
        proof {
            assert forall|i: int| j * 8 <= i < (j + 1) * 8 implies (#[trigger] r@[i])
                == spec_u64_to_le_bytes(window[i / 8])[i % 8] by {
                lemma_div_multiples_vanish_fancy(j as int, i - j * 8, 8);
                assert((8 * (j as int) + (i - j * 8)) / 8 == j as int);
                assert(i / 8 == j as int);
                lemma_mod_multiples_vanish(j as int, i - j * 8, 8);
                lemma_small_mod((i - j * 8) as nat, 8);
                assert(i % 8 == i - j * 8);
            }
        }
        j = j + 1;
    }
    proof {
        assert(r@ =~= le_bytes_of_elements(window));
    }
    r
}

} // verus!
