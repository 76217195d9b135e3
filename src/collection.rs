use mpl_token_metadata::accounts::{CollectionAuthorityRecord, MasterEdition};
use crate::codec::keys_equal;
use vstd::bytes::spec_u64_from_le_bytes;
use vstd::prelude::*;

verus! {

/// Failures of the collection checks.
#[derive(Debug, Clone, Copy, PartialEq, Eq, Structural)]
pub enum MetadataError {
    CollectionCannotBeVerifiedInThisInstruction,
    DerivedKeyInvalid,
    InvalidCollectionUpdateAuthority,
    DataTypeMismatch,
    CollectionNotFound,
    CollectionMasterEditionAccountInvalid,
    CollectionMustBeAUniqueMasterEdition,
}

/// The collection that an item claims to belong to.
#[derive(Debug, Clone, Copy)]
pub struct Collection {
    pub verified: bool,
    pub key: [u8; 32],
}

/// Token standards of an item.
#[derive(Debug, Clone, Copy, PartialEq, Eq, Structural)]
pub enum TokenStandard {
    NonFungible,
    FungibleAsset,
    Fungible,
    NonFungibleEdition,
    ProgrammableNonFungible,
}

/// What the collection checks read of an item's metadata.
#[derive(Debug, Clone, Copy)]
pub struct MetadataInfo {
    pub mint: [u8; 32],
    pub update_authority: [u8; 32],
    pub collection: Option<Collection>,
    pub token_standard: Option<TokenStandard>,
}

/// An account that may hold a collection authority delegation.
#[derive(Debug, Clone)]
pub struct DelegateRecordAccount {
    pub key: [u8; 32],
    pub data: Vec<u8>,
}

/// Program address, and its bump, of the record through which `authority`
/// holds delegated authority over the collection of `mint`.
pub uninterp spec fn collection_authority_pda(mint: Seq<u8>, authority: Seq<u8>) -> (Seq<u8>, u8);

/// Number of account kinds; a kind byte names one of them.
pub open spec fn account_kind_count() -> u8 {
    15
}

/// Bump stored in a collection authority record, if the bytes hold one: an
/// account kind byte, the bump, then an optional 32-byte key behind a 0/1 tag.
pub open spec fn stored_authority_bump(data: Seq<u8>) -> Option<u8> {
    if data.len() >= 3 && data[0] < account_kind_count() && (data[2] == 0 || (data[2] == 1
        && data.len() >= 35)) {
        Some(data[1])
    } else {
        None
    }
}

/// Program address of the master edition of `mint`.
pub uninterp spec fn master_edition_pda(mint: Seq<u8>) -> (Seq<u8>, u8);

/// Maximum supply recorded in a master edition account, if the bytes hold
/// one: an account kind byte, the supply (u64), then an optional
/// little-endian u64 behind a 0/1 tag.
pub open spec fn edition_max_supply(data: Seq<u8>) -> Option<Option<u64>> {
    if data.len() >= 10 && data[0] < account_kind_count() && data[9] == 0 {
        Some(None)
    } else if data.len() >= 18 && data[0] < account_kind_count() && data[9] == 1 {
        Some(Some(spec_u64_from_le_bytes(data.subrange(10, 18))))
    } else {
        None
    }
}

/// Relies on mpl_token_metadata's CollectionAuthorityRecord::find_pda: the
/// derived record address and bump for a mint and an authority. Its search
/// for a bump panics only if no bump gives an address off the curve.
#[verifier::external_body]
fn find_collection_authority_account(mint: &[u8; 32], authority: &[u8; 32]) -> (r: ([u8; 32], u8))
    ensures
        (r.0@, r.1) == collection_authority_pda(mint@, authority@),
{
    let (pda, bump) = CollectionAuthorityRecord::find_pda(&(*mint).into(), &(*authority).into());
    (pda.to_bytes(), bump)
}

/// Relies on mpl_token_metadata's CollectionAuthorityRecord::from_bytes:
/// the borsh decoding of an account kind (one of fifteen), the bump and an
/// optional key, read from the start of the bytes.
#[verifier::external_body]
fn read_authority_record_bump(data: &[u8]) -> (r: Option<u8>)
    ensures
        r == stored_authority_bump(data@),
{
    match CollectionAuthorityRecord::from_bytes(data) {
        Ok(record) => Some(record.bump),
        Err(_) => None,
    }
}

/// Relies on mpl_token_metadata's MasterEdition::find_pda: the derived
/// master edition address and bump for a mint. Its search for a bump panics
/// only if no bump gives an address off the curve.
#[verifier::external_body]
fn find_master_edition_account(mint: &[u8; 32]) -> (r: ([u8; 32], u8))
    ensures
        (r.0@, r.1) == master_edition_pda(mint@),
{
    let (pda, bump) = MasterEdition::find_pda(&(*mint).into());
    (pda.to_bytes(), bump)
}

/// Relies on mpl_token_metadata's MasterEdition::from_bytes: the borsh
/// decoding of an account kind (one of fifteen), the supply and an optional
/// maximum supply, read from the start of the bytes.
#[verifier::external_body]
fn read_edition_max_supply(data: &[u8]) -> (r: Option<Option<u64>>)
    ensures
        r == edition_max_supply(data@),
{
    match MasterEdition::from_bytes(data) {
        Ok(edition) => Some(edition.max_supply),
        Err(_) => None,
    }
}

/// Whether an update may carry `incoming`: a verified incoming collection
/// must equal the existing one, unless the item is an edition.
pub open spec fn collection_update_ok(
    edition: bool,
    existing: Option<Collection>,
    incoming: Option<Collection>,
) -> bool {
    edition || match incoming {
        Some(i) => !i.verified || match existing {
            Some(e) => e.verified == i.verified && e.key@ == i.key@,
            None => false,
        },
        None => true,
    }
}

/// Rejects an update that would mark a collection verified outside the
/// verifying instruction.
pub fn assert_collection_update_is_valid(
    edition: bool,
    existing: &Option<Collection>,
    incoming: &Option<Collection>,
) -> (r: Result<(), MetadataError>)
    ensures
        collection_update_ok(edition, *existing, *incoming) ==> r == Ok::<(), MetadataError>(()),
        !collection_update_ok(edition, *existing, *incoming) ==> r == Err::<(), MetadataError>(
            MetadataError::CollectionCannotBeVerifiedInThisInstruction,
        ),
{
    let incoming_verified = match incoming {
        Some(i) => i.verified,
        None => false,
    };
    let data_valid = !incoming_verified || match (existing, incoming) {
        (Some(e), Some(i)) => e.verified == i.verified && keys_equal(&i.key, &e.key),
        _ => false,
    };
    if !data_valid && !edition {
        return Err(MetadataError::CollectionCannotBeVerifiedInThisInstruction);
    }
    Ok(())
}

/// Accepts `record_key` when it is the derived address `derived`; returns its bump.
pub fn check_delegated_record(record_key: &[u8; 32], derived: &[u8; 32], bump: u8) -> (r: Result<
    u8,
    MetadataError,
>)
    ensures
        record_key@ == derived@ ==> r == Ok::<u8, MetadataError>(bump),
        record_key@ != derived@ ==> r == Err::<u8, MetadataError>(MetadataError::DerivedKeyInvalid),
{
    if !keys_equal(derived, record_key) {
        return Err(MetadataError::DerivedKeyInvalid);
    }
    Ok(bump)
}

/// Checks that `authority_record` is the delegation record of
/// `collection_authority` for `mint`; returns the record's bump.
pub fn assert_is_collection_delegated_authority(
    authority_record: &[u8; 32],
    collection_authority: &[u8; 32],
    mint: &[u8; 32],
) -> (r: Result<u8, MetadataError>)
    ensures
        ({
            let (pda, bump) = collection_authority_pda(mint@, collection_authority@);
            &&& authority_record@ == pda ==> r == Ok::<u8, MetadataError>(bump)
            &&& authority_record@ != pda ==> r == Err::<u8, MetadataError>(
                MetadataError::DerivedKeyInvalid,
            )
        }),
{
    let (pda, bump) = find_collection_authority_account(mint, collection_authority);
    check_delegated_record(authority_record, &pda, bump)
}

/// Accepts a delegation record of `data_len` bytes whose stored bump
/// (`None` where the bytes hold no record) is the derived `bump`.
pub fn check_record_bump(data_len: usize, stored: Option<u8>, bump: u8) -> (r: Result<
    (),
    MetadataError,
>)
    ensures
        data_len == 0 ==> r == Err::<(), MetadataError>(
            MetadataError::InvalidCollectionUpdateAuthority,
        ),
        data_len > 0 && stored is None ==> r == Err::<(), MetadataError>(
            MetadataError::DataTypeMismatch,
        ),
        data_len > 0 && stored is Some && stored.unwrap() != bump ==> r == Err::<(), MetadataError>(
            MetadataError::InvalidCollectionUpdateAuthority,
        ),
        data_len > 0 && stored == Some(bump) ==> r == Ok::<(), MetadataError>(()),
{
    if data_len == 0 {
        return Err(MetadataError::InvalidCollectionUpdateAuthority);
    }
    match stored {
        Some(b) => {
            if b != bump {
                Err(MetadataError::InvalidCollectionUpdateAuthority)
            } else {
                Ok(())
            }
        },
        None => Err(MetadataError::DataTypeMismatch),
    }
}

/// Outcome of the authority check through a delegation record.
pub open spec fn delegated_outcome(
    collection_authority: Seq<u8>,
    mint: Seq<u8>,
    record: DelegateRecordAccount,
) -> Result<(), MetadataError> {
    let (pda, bump) = collection_authority_pda(mint, collection_authority);
    if record.key@ != pda {
        Err(MetadataError::DerivedKeyInvalid)
    } else if record.data@.len() == 0 {
        Err(MetadataError::InvalidCollectionUpdateAuthority)
    } else {
        match stored_authority_bump(record.data@) {
            None => Err(MetadataError::DataTypeMismatch),
            Some(b) => if b != bump {
                Err(MetadataError::InvalidCollectionUpdateAuthority)
            } else {
                Ok(())
            },
        }
    }
}

/// Checks that `collection_authority` may act for the collection: through
/// the given delegation record, else as the collection's update authority.
pub fn assert_has_collection_authority(
    collection_authority: &[u8; 32],
    collection_data: &MetadataInfo,
    mint: &[u8; 32],
    delegate_record: Option<&DelegateRecordAccount>,
) -> (r: Result<(), MetadataError>)
    ensures
        delegate_record matches Some(d) ==> r == delegated_outcome(
            collection_authority@,
            mint@,
            *d,
        ),
        delegate_record is None ==> (r is Ok <==> collection_data.update_authority@
            == collection_authority@),
        delegate_record is None && r is Err ==> r == Err::<(), MetadataError>(
            MetadataError::InvalidCollectionUpdateAuthority,
        ),
{
    match delegate_record {
        Some(d) => {
            let bump = match assert_is_collection_delegated_authority(&d.key, collection_authority, mint) {
                Ok(b) => b,
                Err(e) => return Err(e),
            };
            if d.data.len() == 0 {
                return Err(MetadataError::InvalidCollectionUpdateAuthority);
            }
            let stored = read_authority_record_bump(d.data.as_slice());
            check_record_bump(d.data.len(), stored, bump)
        },
        None => {
            if !keys_equal(&collection_data.update_authority, collection_authority) {
                return Err(MetadataError::InvalidCollectionUpdateAuthority);
            }
            Ok(())
        },
    }
}

/// Whether a collection may be a unique master edition: a non-fungible
/// token whose edition caps the supply at zero.
pub open spec fn unique_master_edition(token_standard: Option<TokenStandard>, max_supply: Option<Option<u64>>) -> bool {
    token_standard == Some(TokenStandard::NonFungible) && max_supply == Some(Some(0u64))
}

/// Accepts a collection that is a non-fungible token with a master edition
/// of maximum supply zero; `max_supply` is `None` where the edition account
/// could not be decoded.
pub fn check_master_edition(token_standard: Option<TokenStandard>, max_supply: Option<Option<u64>>) -> (r: Result<
    (),
    MetadataError,
>)
    ensures
        unique_master_edition(token_standard, max_supply) ==> r == Ok::<(), MetadataError>(()),
        !unique_master_edition(token_standard, max_supply) ==> r == Err::<(), MetadataError>(
            MetadataError::CollectionMustBeAUniqueMasterEdition,
        ),
{
    let non_fungible = match token_standard {
        Some(TokenStandard::NonFungible) => true,
        _ => false,
    };
    let zero_cap = match max_supply {
        Some(Some(m)) => m == 0,
        _ => false,
    };
    if !non_fungible || !zero_cap {
        return Err(MetadataError::CollectionMustBeAUniqueMasterEdition);
    }
    Ok(())
}

/// Checks that the collection is a unique master edition, reading the
/// edition from its account bytes.
pub fn assert_master_edition(collection_data: &MetadataInfo, edition_data: &[u8]) -> (r: Result<
    (),
    MetadataError,
>)
    ensures
        unique_master_edition(collection_data.token_standard, edition_max_supply(edition_data@))
            ==> r == Ok::<(), MetadataError>(()),
        !unique_master_edition(collection_data.token_standard, edition_max_supply(edition_data@))
            ==> r == Err::<(), MetadataError>(MetadataError::CollectionMustBeAUniqueMasterEdition),
{
    let max_supply = read_edition_max_supply(edition_data);
    check_master_edition(collection_data.token_standard, max_supply)
}

/// Outcome of checking that an item may be verified as a member of a collection.
pub open spec fn verify_outcome(
    member: MetadataInfo,
    collection_data: MetadataInfo,
    collection_mint: Seq<u8>,
    edition_key: Seq<u8>,
    edition_data: Seq<u8>,
) -> Result<(), MetadataError> {
    match member.collection {
        None => Err(MetadataError::CollectionNotFound),
        Some(c) => if c.key@ != collection_mint || collection_data.mint@ != collection_mint {
            Err(MetadataError::CollectionNotFound)
        } else if edition_key != master_edition_pda(collection_data.mint@).0 {
            Err(MetadataError::CollectionMasterEditionAccountInvalid)
        } else if !unique_master_edition(collection_data.token_standard, edition_max_supply(edition_data)) {
            Err(MetadataError::CollectionMustBeAUniqueMasterEdition)
        } else {
            Ok(())
        },
    }
}

/// Checks that `collection_member` names the collection of `collection_mint`,
/// that `edition_key` is that collection's master edition account, and that
/// the edition is unique.
pub fn assert_collection_verify_is_valid(
    collection_member: &MetadataInfo,
    collection_data: &MetadataInfo,
    collection_mint: &[u8; 32],
    edition_key: &[u8; 32],
    edition_data: &[u8],
) -> (r: Result<(), MetadataError>)
    ensures
        r == verify_outcome(
            *collection_member,
            *collection_data,
            collection_mint@,
            edition_key@,
            edition_data@,
        ),
{
    match &collection_member.collection {
        Some(c) => {
            if !keys_equal(&c.key, collection_mint) || !keys_equal(&collection_data.mint, collection_mint) {
                return Err(MetadataError::CollectionNotFound);
            }
        },
        None => {
            return Err(MetadataError::CollectionNotFound);
        },
    }
    let (pda, _) = find_master_edition_account(&collection_data.mint);
    if !keys_equal(&pda, edition_key) {
        return Err(MetadataError::CollectionMasterEditionAccountInvalid);
    }
    assert_master_edition(collection_data, edition_data)
}

} // verus!
