use crate::codec::{decode_record, keys_equal, parse_record};
use crate::error::CandyError;
use crate::init::{account_tag_preimage, candy_machine_discriminator, sha256_of};
use solana_program::pubkey::Pubkey;
use vstd::prelude::*;

verus! {

/// Address derived from the seeds `prefix` and `key` under `program_id`.
pub uninterp spec fn program_address(prefix: Seq<u8>, key: Seq<u8>, program_id: Seq<u8>) -> Seq<u8>;

/// Relies on solana_program's Pubkey::find_program_address: the address
/// derived from the seeds `prefix` and `key` under `program_id` (its bump is
/// dropped). A seed longer than 32 bytes makes it panic, as would a search
/// in which no bump gives an address off the curve.
#[verifier::external_body]
fn find_program_address(prefix: &[u8], key: &[u8; 32], program_id: &[u8; 32]) -> (r: [u8; 32])
    requires
        prefix@.len() <= 32,
    ensures
        r@ == program_address(prefix@, key@, program_id@),
{
    let program = Pubkey::new_from_array(*program_id);
    Pubkey::find_program_address(&[prefix, key.as_ref()], &program).0.to_bytes()
}

/// Seed prefix of a machine's collection account: `collection`.
pub open spec fn collection_seed() -> Seq<u8> {
    seq![99u8, 111, 108, 108, 101, 99, 116, 105, 111, 110]
}

/// Whether `data` starts with the eight bytes of `tag`.
pub open spec fn starts_with_tag(data: Seq<u8>, tag: Seq<u8>) -> bool {
    data.len() >= 8 && data.take(8) == tag
}

/// Whether the account bytes start with `tag`.
pub fn has_tag(data: &[u8], tag: &[u8; 8]) -> (r: bool)
    ensures
        r == starts_with_tag(data@, tag@),
{
    if data.len() < 8 {
        return false;
    }
    let mut i: usize = 0;
    while i < 8
        invariant
            i <= 8,
            data@.len() >= 8,
            tag@.len() == 8,
            forall|j: int| 0 <= j < i ==> data@[j] == tag@[j],
        decreases 8 - i,
    {
        if data[i] != tag[i] {
            return false;
        }
        i = i + 1;
    }
    assert(data@.take(8) =~= tag@);
    true
}

/// Outcome of checking that `authority` may withdraw from the account
/// holding `data`, whose records open with `tag`.
pub open spec fn withdraw_authority_outcome(data: Seq<u8>, tag: Seq<u8>, authority: Seq<u8>) -> Result<(), CandyError> {
    if !starts_with_tag(data, tag) {
        Err(CandyError::AccountTagMismatch)
    } else {
        match parse_record(data.skip(8)) {
            None => Err(CandyError::AccountTagMismatch),
            Some((r, _)) => if r.authority != authority {
                Err(CandyError::AuthorityMismatch)
            } else {
                Ok(())
            },
        }
    }
}

/// Checks that the account opens with `tag`, holds a record, and that the
/// record's authority is `authority`.
pub fn check_withdraw_authority(data: &[u8], tag: &[u8; 8], authority: &[u8; 32]) -> (r: Result<(), CandyError>)
    ensures
        r == withdraw_authority_outcome(data@, tag@, authority@),
{
    if !has_tag(data, tag) {
        return Err(CandyError::AccountTagMismatch);
    }
    match decode_record(data, 8) {
        None => Err(CandyError::AccountTagMismatch),
        Some((record, _)) => {
            if !keys_equal(&record.authority, authority) {
                Err(CandyError::AuthorityMismatch)
            } else {
                Ok(())
            }
        },
    }
}

/// Checks that `authority` may withdraw from the candy machine account
/// holding `data`.
pub fn assert_withdraw_authority(data: &[u8], authority: &[u8; 32]) -> (r: Result<(), CandyError>)
    ensures
        r == withdraw_authority_outcome(
            data@,
            sha256_of(account_tag_preimage()).take(8),
            authority@,
        ),
{
    let tag = candy_machine_discriminator();
    check_withdraw_authority(data, &tag, authority)
}

/// Accepts the collection account `collection` when it is the `derived` address.
pub fn check_collection_account(collection: &[u8; 32], derived: &[u8; 32]) -> (r: Result<(), CandyError>)
    ensures
        collection@ == derived@ ==> r == Ok::<(), CandyError>(()),
        collection@ != derived@ ==> r == Err::<(), CandyError>(CandyError::MismatchedCollectionPDA),
{
    if !keys_equal(collection, derived) {
        return Err(CandyError::MismatchedCollectionPDA);
    }
    Ok(())
}

/// Checks that `collection` is the collection account derived for the
/// machine `candy_machine` under `program_id`.
pub fn assert_collection_pda(collection: &[u8; 32], candy_machine: &[u8; 32], program_id: &[u8; 32]) -> (r: Result<
    (),
    CandyError,
>)
    ensures
        ({
            let derived = program_address(collection_seed(), candy_machine@, program_id@);
            &&& collection@ == derived ==> r == Ok::<(), CandyError>(())
            &&& collection@ != derived ==> r == Err::<(), CandyError>(
                CandyError::MismatchedCollectionPDA,
            )
        }),
{
    let seed: Vec<u8> = vec![99u8, 111, 108, 108, 101, 99, 116, 105, 111, 110];
    assert(seed@ =~= collection_seed());
    let derived = find_program_address(seed.as_slice(), candy_machine, program_id);
    check_collection_account(collection, &derived)
}

} // verus!
