use candy_machine::collection::{
    assert_collection_update_is_valid, assert_collection_verify_is_valid,
    assert_has_collection_authority, assert_is_collection_delegated_authority,
    assert_master_edition, check_delegated_record, check_master_edition, check_record_bump,
    Collection, DelegateRecordAccount, MetadataError, MetadataInfo, TokenStandard,
};
use mpl_token_metadata::accounts::{CollectionAuthorityRecord, MasterEdition};

fn coll(verified: bool, key: u8) -> Option<Collection> {
    Some(Collection { verified, key: [key; 32] })
}

fn edition_bytes(max_supply: Option<u64>) -> Vec<u8> {
    let mut b = vec![6u8];
    b.extend_from_slice(&0u64.to_le_bytes());
    match max_supply {
        Some(m) => {
            b.push(1);
            b.extend_from_slice(&m.to_le_bytes());
        }
        None => b.push(0),
    }
    b
}

fn metadata(mint: u8, standard: Option<TokenStandard>, collection: Option<Collection>) -> MetadataInfo {
    MetadataInfo { mint: [mint; 32], update_authority: [20; 32], collection, token_standard: standard }
}

#[test]
fn collection_update_rules() {
    let err = Err(MetadataError::CollectionCannotBeVerifiedInThisInstruction);
    assert_eq!(assert_collection_update_is_valid(false, &None, &None), Ok(()));
    assert_eq!(assert_collection_update_is_valid(false, &None, &coll(false, 1)), Ok(()));
    assert_eq!(assert_collection_update_is_valid(false, &None, &coll(true, 1)), err);
    assert_eq!(assert_collection_update_is_valid(true, &None, &coll(true, 1)), Ok(()));
    assert_eq!(assert_collection_update_is_valid(false, &coll(true, 1), &coll(true, 1)), Ok(()));
    assert_eq!(assert_collection_update_is_valid(false, &coll(true, 2), &coll(true, 1)), err);
    assert_eq!(assert_collection_update_is_valid(false, &coll(false, 1), &coll(true, 1)), err);
}

#[test]
fn delegated_record_checks() {
    assert_eq!(check_delegated_record(&[1; 32], &[1; 32], 254), Ok(254));
    assert_eq!(check_delegated_record(&[1; 32], &[2; 32], 254), Err(MetadataError::DerivedKeyInvalid));
    assert_eq!(check_record_bump(0, Some(3), 3), Err(MetadataError::InvalidCollectionUpdateAuthority));
    assert_eq!(check_record_bump(5, None, 3), Err(MetadataError::DataTypeMismatch));
    assert_eq!(check_record_bump(5, Some(4), 3), Err(MetadataError::InvalidCollectionUpdateAuthority));
    assert_eq!(check_record_bump(5, Some(3), 3), Ok(()));
}

#[test]
fn delegated_authority_through_derivation() {
    let mint = [11u8; 32];
    let authority = [12u8; 32];
    let (pda, bump) = CollectionAuthorityRecord::find_pda(&mint.into(), &authority.into());
    let pda = pda.to_bytes();
    assert_eq!(assert_is_collection_delegated_authority(&pda, &authority, &mint), Ok(bump));
    assert_eq!(
        assert_is_collection_delegated_authority(&mint, &authority, &mint),
        Err(MetadataError::DerivedKeyInvalid)
    );
    let good = DelegateRecordAccount { key: pda, data: vec![9, bump, 0] };
    let data = metadata(11, None, None);
    assert_eq!(assert_has_collection_authority(&authority, &data, &mint, Some(&good)), Ok(()));
    let wrong_bump = DelegateRecordAccount { key: pda, data: vec![9, bump.wrapping_add(1), 0] };
    assert_eq!(
        assert_has_collection_authority(&authority, &data, &mint, Some(&wrong_bump)),
        Err(MetadataError::InvalidCollectionUpdateAuthority)
    );
    let bad_kind = DelegateRecordAccount { key: pda, data: vec![15, bump, 0] };
    assert_eq!(
        assert_has_collection_authority(&authority, &data, &mint, Some(&bad_kind)),
        Err(MetadataError::DataTypeMismatch)
    );
    let bad_option = DelegateRecordAccount { key: pda, data: vec![9, bump, 2] };
    assert_eq!(
        assert_has_collection_authority(&authority, &data, &mint, Some(&bad_option)),
        Err(MetadataError::DataTypeMismatch)
    );
    let mut with_key = vec![9, bump, 1];
    with_key.extend_from_slice(&[3u8; 32]);
    let keyed = DelegateRecordAccount { key: pda, data: with_key };
    assert_eq!(assert_has_collection_authority(&authority, &data, &mint, Some(&keyed)), Ok(()));
    let short_key = DelegateRecordAccount { key: pda, data: vec![9, bump, 1, 3] };
    assert_eq!(
        assert_has_collection_authority(&authority, &data, &mint, Some(&short_key)),
        Err(MetadataError::DataTypeMismatch)
    );
    let empty = DelegateRecordAccount { key: pda, data: vec![] };
    assert_eq!(
        assert_has_collection_authority(&authority, &data, &mint, Some(&empty)),
        Err(MetadataError::InvalidCollectionUpdateAuthority)
    );
    assert_eq!(assert_has_collection_authority(&[20; 32], &data, &mint, None), Ok(()));
    assert_eq!(
        assert_has_collection_authority(&authority, &data, &mint, None),
        Err(MetadataError::InvalidCollectionUpdateAuthority)
    );
}

#[test]
fn master_edition_checks() {
    assert_eq!(check_master_edition(Some(TokenStandard::NonFungible), Some(Some(0))), Ok(()));
    let err = Err(MetadataError::CollectionMustBeAUniqueMasterEdition);
    assert_eq!(check_master_edition(Some(TokenStandard::NonFungible), Some(Some(5))), err);
    assert_eq!(check_master_edition(Some(TokenStandard::Fungible), Some(Some(0))), err);
    assert_eq!(check_master_edition(None, Some(Some(0))), err);
    assert_eq!(check_master_edition(Some(TokenStandard::NonFungible), None), err);
    let nft = metadata(11, Some(TokenStandard::NonFungible), None);
    assert_eq!(assert_master_edition(&nft, &edition_bytes(Some(0))), Ok(()));
    assert_eq!(assert_master_edition(&nft, &edition_bytes(Some(3))), err);
    assert_eq!(assert_master_edition(&nft, &edition_bytes(None)), err);
    assert_eq!(assert_master_edition(&nft, &[6u8, 0]), err);
    let mut bad_kind = edition_bytes(Some(0));
    bad_kind[0] = 15;
    assert_eq!(assert_master_edition(&nft, &bad_kind), err);
    let mut bad_tag = edition_bytes(Some(0));
    bad_tag[9] = 2;
    assert_eq!(assert_master_edition(&nft, &bad_tag), err);
}

#[test]
fn collection_verification() {
    let mint = [11u8; 32];
    let edition = MasterEdition::find_pda(&mint.into()).0.to_bytes();
    let collection = metadata(11, Some(TokenStandard::NonFungible), None);
    let member = metadata(30, None, coll(false, 11));
    let bytes = edition_bytes(Some(0));
    assert_eq!(assert_collection_verify_is_valid(&member, &collection, &mint, &edition, &bytes), Ok(()));
    let stranger = metadata(30, None, coll(false, 12));
    assert_eq!(
        assert_collection_verify_is_valid(&stranger, &collection, &mint, &edition, &bytes),
        Err(MetadataError::CollectionNotFound)
    );
    let orphan = metadata(30, None, None);
    assert_eq!(
        assert_collection_verify_is_valid(&orphan, &collection, &mint, &edition, &bytes),
        Err(MetadataError::CollectionNotFound)
    );
    assert_eq!(
        assert_collection_verify_is_valid(&member, &collection, &mint, &mint, &bytes),
        Err(MetadataError::CollectionMasterEditionAccountInvalid)
    );
    assert_eq!(
        assert_collection_verify_is_valid(&member, &collection, &mint, &edition, &edition_bytes(Some(1))),
        Err(MetadataError::CollectionMustBeAUniqueMasterEdition)
    );
}
