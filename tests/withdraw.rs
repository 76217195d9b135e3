use candy_machine::codec::{encode_record, CandyMachine, CandyMachineData};
use candy_machine::error::CandyError;
use candy_machine::init::candy_machine_discriminator;
use candy_machine::withdraw::{
    assert_collection_pda, assert_withdraw_authority, check_collection_account,
    check_withdraw_authority, has_tag,
};
use solana_program::pubkey::Pubkey;

fn account_bytes(tag: &[u8; 8], authority: [u8; 32]) -> Vec<u8> {
    let record = CandyMachine {
        authority,
        wallet: [2; 32],
        token_mint: None,
        items_redeemed: 0,
        data: CandyMachineData {
            uuid: vec![0; 6],
            symbol: b"ABC".to_vec(),
            creators: vec![],
            hidden_settings: None,
            items_available: 3,
        },
    };
    let mut out = tag.to_vec();
    encode_record(&record, &mut out);
    out.extend_from_slice(&[0; 16]);
    out
}

#[test]
fn tag_prefix() {
    assert!(has_tag(&[1, 2, 3, 4, 5, 6, 7, 8, 9], &[1, 2, 3, 4, 5, 6, 7, 8]));
    assert!(!has_tag(&[1, 2, 3, 4, 5, 6, 7, 0], &[1, 2, 3, 4, 5, 6, 7, 8]));
    assert!(!has_tag(&[1, 2, 3], &[1, 2, 3, 4, 5, 6, 7, 8]));
}

#[test]
fn withdraw_authority_checks() {
    let tag = [7u8; 8];
    let data = account_bytes(&tag, [1; 32]);
    assert_eq!(check_withdraw_authority(&data, &tag, &[1; 32]), Ok(()));
    assert_eq!(check_withdraw_authority(&data, &tag, &[3; 32]), Err(CandyError::AuthorityMismatch));
    assert_eq!(check_withdraw_authority(&data, &[6; 8], &[1; 32]), Err(CandyError::AccountTagMismatch));
    assert_eq!(check_withdraw_authority(&data[..40], &tag, &[1; 32]), Err(CandyError::AccountTagMismatch));
    let real = account_bytes(&candy_machine_discriminator(), [1; 32]);
    assert_eq!(assert_withdraw_authority(&real, &[1; 32]), Ok(()));
    assert_eq!(assert_withdraw_authority(&data, &[1; 32]), Err(CandyError::AccountTagMismatch));
}

#[test]
fn collection_account_derivation() {
    let machine = [21u8; 32];
    let program = [22u8; 32];
    let (expected, _) = Pubkey::find_program_address(
        &[b"collection", &machine],
        &Pubkey::new_from_array(program),
    );
    let expected = expected.to_bytes();
    assert_eq!(assert_collection_pda(&expected, &machine, &program), Ok(()));
    assert_eq!(
        assert_collection_pda(&machine, &machine, &program),
        Err(CandyError::MismatchedCollectionPDA)
    );
    assert_eq!(check_collection_account(&[1; 32], &[1; 32]), Ok(()));
    assert_eq!(check_collection_account(&[1; 32], &[2; 32]), Err(CandyError::MismatchedCollectionPDA));
}
