use vstd::prelude::*;

verus! {

/// Flag bit of records that use swap-remove indexing for their items.
pub const SWAP_REMOVE_FEATURE_INDEX: usize = 0;

/// Mask of bit `k` (below 8) of a byte, the lowest bit being bit 0.
pub open spec fn bit_mask(k: nat) -> u8 {
    (1u8 << (k as u8)) as u8
}

/// Whether flag `k` is set in `id`: bit `k % 8` of byte `k / 8`.
pub open spec fn flag_is_set(id: Seq<u8>, k: nat) -> bool {
    k < 8 * id.len() && id[(k / 8) as int] & bit_mask(k % 8) != 0
}

/// `id` with flag `k` set and every other byte and bit left as it was.
pub open spec fn with_flag(id: Seq<u8>, k: nat) -> Seq<u8> {
    id.update((k / 8) as int, id[(k / 8) as int] | bit_mask(k % 8))
}

proof fn lemma_or_mask(b: u8, k: u8, j: u8)
    requires
        k < 8,
        j < 8,
    ensures
        (b | (1u8 << k)) & (1u8 << j) != 0 <==> (j == k || b & (1u8 << j) != 0),
        (b | (1u8 << k)) | (1u8 << k) == b | (1u8 << k),
        0u8 & (1u8 << j) == 0,
{
    assert((b | (1u8 << k)) & (1u8 << j) != 0 <==> (j == k || b & (1u8 << j) != 0))
        by (bit_vector)
        requires
            k < 8,
            j < 8,
    ;
    assert((b | (1u8 << k)) | (1u8 << k) == b | (1u8 << k)) by (bit_vector);
    assert(0u8 & (1u8 << j) == 0) by (bit_vector);
}

/// Setting flag `k` sets that flag and changes no other.
pub proof fn lemma_with_flag_flags(id: Seq<u8>, k: nat, j: nat)
    requires
        k < 8 * id.len(),
    ensures
        with_flag(id, k).len() == id.len(),
        flag_is_set(with_flag(id, k), j) <==> (j == k || flag_is_set(id, j)),
{
    if j < 8 * id.len() {
        lemma_or_mask(id[(k / 8) as int], (k % 8) as u8, (j % 8) as u8);
    }
}

/// Setting flag `k` on an all-zero identifier leaves `k` as its only flag;
/// setting it a second time changes nothing.
pub proof fn lemma_single_flag_idempotent(id: Seq<u8>, k: nat, j: nat)
    requires
        k < 8 * id.len(),
        forall|i: int| 0 <= i < id.len() ==> id[i] == 0,
    ensures
        flag_is_set(with_flag(id, k), j) <==> j == k,
        with_flag(with_flag(id, k), k) == with_flag(id, k),
{
    lemma_with_flag_flags(id, k, j);
    if j < 8 * id.len() {
        lemma_or_mask(id[(j / 8) as int], (k % 8) as u8, (j % 8) as u8);
    }
    lemma_or_mask(id[(k / 8) as int], (k % 8) as u8, 0);
    assert(with_flag(with_flag(id, k), k) =~= with_flag(id, k));
}

/// Sets flag `bit` of the identifier, leaving every other bit untouched.
pub fn set_feature_flag(uuid: &mut Vec<u8>, bit: usize)
    requires
        bit < 8 * old(uuid)@.len(),
    ensures
        final(uuid)@ == with_flag(old(uuid)@, bit as nat),
{
    let i = bit / 8;
    let k = (bit % 8) as u8;
    let b = uuid[i] | (1u8 << k);
    uuid.set(i, b);
}

/// Whether flag `bit` of the identifier is set; false past its end.
pub fn is_feature_active(uuid: &Vec<u8>, bit: usize) -> (r: bool)
    ensures
        r == flag_is_set(uuid@, bit as nat),
{
    if bit / 8 >= uuid.len() {
        return false;
    }
    let k = (bit % 8) as u8;
    uuid[bit / 8] & (1u8 << k) != 0
}

} // verus!
