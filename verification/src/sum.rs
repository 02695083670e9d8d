//! The sum of a byte sequence, as a mathematical integer.

use vstd::prelude::*;

verus! {

/// The sum of all bytes of `data`, without any wrapping. The empty sequence
/// sums to zero.
pub open spec fn byte_sum(data: Seq<u8>) -> nat
    decreases data.len(),
{
    if data.len() == 0 {
        0
    } else {
        byte_sum(data.drop_last()) + data.last() as nat
    }
}

/// Extending a prefix of `data` by one byte adds that byte to the sum.
pub proof fn lemma_byte_sum_step(data: Seq<u8>, i: int)
    requires
        0 <= i < data.len(),
    ensures
        byte_sum(data.take(i + 1)) == byte_sum(data.take(i)) + data[i] as nat,
{
    assert(data.take(i + 1).drop_last() =~= data.take(i));
}

/// A prefix never sums to more than the whole sequence.
pub proof fn lemma_byte_sum_prefix(data: Seq<u8>, i: int)
    requires
        0 <= i <= data.len(),
    ensures
        byte_sum(data.take(i)) <= byte_sum(data),
    decreases data.len() - i,
{
    if i < data.len() {
        lemma_byte_sum_step(data, i);
        lemma_byte_sum_prefix(data, i + 1);
    } else {
        assert(data.take(i) =~= data);
    }
}

/// Replacing one byte changes the sum by the difference of the two bytes.
pub proof fn lemma_byte_sum_update(data: Seq<u8>, i: int, value: u8)
    requires
        0 <= i < data.len(),
    ensures
        byte_sum(data.update(i, value)) + data[i] == byte_sum(data) + value,
    decreases data.len(),
{
    let changed = data.update(i, value);
    if i == data.len() - 1 {
        assert(changed.drop_last() =~= data.drop_last());
    } else {
        assert(changed.drop_last() =~= data.drop_last().update(i, value));
        lemma_byte_sum_update(data.drop_last(), i, value);
    }
}

/// No byte exceeds 255, so the sum is at most 255 times the length.
pub proof fn lemma_byte_sum_bound(data: Seq<u8>)
    ensures
        byte_sum(data) <= 255 * data.len(),
    decreases data.len(),
{
    if data.len() > 0 {
        lemma_byte_sum_bound(data.drop_last());
    }
}

} // verus!
