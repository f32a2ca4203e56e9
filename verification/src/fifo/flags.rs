use vstd::prelude::*;

verus! {

/// Whether bit `i` is set in a packed flag array (eight flags per byte,
/// flag `i` being bit `i % 8` of byte `i / 8`).
pub open spec fn flag_bit(bytes: Seq<u8>, i: int) -> bool {
    bytes[i / 8] & (1u8 << ((i % 8) as u8)) != 0u8
}

proof fn lemma_or_bit(b: u8, k: u8, j: u8)
    requires
        k < 8,
        j < 8,
    ensures
        ((b | (1u8 << k)) & (1u8 << j) != 0u8) == (k == j || (b & (1u8 << j)) != 0u8),
{
    assert(((b | (1u8 << k)) & (1u8 << j) != 0u8) == (k == j || (b & (1u8 << j)) != 0u8))
        by (bit_vector)
        requires
            k < 8,
            j < 8,
    ;
}

proof fn lemma_zero_bit(j: u8)
    requires
        j < 8,
    ensures
        (0u8 & (1u8 << j)) == 0u8,
{
    assert((0u8 & (1u8 << j)) == 0u8) by (bit_vector);
}

/// Sets flag `i`, leaving every other flag as it was.
pub fn set_slot_flag(slot_flags: &mut Vec<u8>, i: usize)
    requires
        i / 8 < old(slot_flags).len(),
    ensures
        final(slot_flags).len() == old(slot_flags).len(),
        forall|j: int|
            0 <= j < 8 * old(slot_flags).len() ==> #[trigger] flag_bit(final(slot_flags)@, j) == (j
                == i || flag_bit(old(slot_flags)@, j)),
{
    let ghost before = slot_flags@;
    let byte = i / 8;
    let shift: u8 = (i % 8) as u8;
    let mask: u8 = 1u8 << shift;
    let updated: u8 = slot_flags[byte] | mask;
    slot_flags.set(byte, updated);
    assert forall|j: int| 0 <= j < 8 * before.len() implies #[trigger] flag_bit(slot_flags@, j) == (
    j == i || flag_bit(before, j)) by {
        if j / 8 == byte as int {
            lemma_or_bit(before[byte as int], shift, (j % 8) as u8);
        }
    }
}

/// Reads flag `i`.
pub fn get_slot_flag(slot_flags: &Vec<u8>, i: usize) -> (set: bool)
    requires
        i / 8 < slot_flags.len(),
    ensures
        set == flag_bit(slot_flags@, i as int),
{
    let shift: u8 = (i % 8) as u8;
    let mask: u8 = 1u8 << shift;
    (slot_flags[i / 8] & mask) != 0u8
}

/// Clears every flag.
pub fn clear_slot_flags(slot_flags: &mut Vec<u8>)
    ensures
        final(slot_flags).len() == old(slot_flags).len(),
        forall|j: int| 0 <= j < 8 * old(slot_flags).len() ==> !#[trigger] flag_bit(final(slot_flags)@, j),
{
    let n = slot_flags.len();
    let mut k: usize = 0;
    while k < n
        invariant
            k <= n,
            slot_flags.len() == n,
            forall|b: int| 0 <= b < k ==> slot_flags@[b] == 0u8,
        decreases n - k,
    {
        slot_flags.set(k, 0u8);
        k = k + 1;
    }
    assert forall|j: int| 0 <= j < 8 * n implies !#[trigger] flag_bit(slot_flags@, j) by {
        lemma_zero_bit((j % 8) as u8);
    }
}

/// A packed flag array of `len` bytes, every flag cleared.
pub fn new_slot_flags(len: usize) -> (flags: Vec<u8>)
    ensures
        flags.len() == len,
        forall|j: int| 0 <= j < 8 * len ==> !#[trigger] flag_bit(flags@, j),
{
    let mut flags: Vec<u8> = Vec::new();
    let mut k: usize = 0;
    while k < len
        invariant
            k <= len,
            flags.len() == k,
            forall|b: int| 0 <= b < k ==> flags@[b] == 0u8,
        decreases len - k,
    {
        flags.push(0u8);
        k = k + 1;
    }
    assert forall|j: int| 0 <= j < 8 * len implies !#[trigger] flag_bit(flags@, j) by {
        lemma_zero_bit((j % 8) as u8);
    }
    flags
}

} // verus!
