use candy_machine::codec::{decode_record, encode_record, CandyMachine, CandyMachineData, Creator, HiddenSettings};
use candy_machine::error::CandyError;
use candy_machine::flags::{is_feature_active, set_feature_flag, SWAP_REMOVE_FEATURE_INDEX};
use candy_machine::init::{
    candy_machine_discriminator, collection_pda_discriminator, get_space_for_candy,
    initialize_candy_machine, initialize_with_tag, pad_symbol, rent_top_up, required_size,
    PaymentMint,
};
use candy_machine::layout::{
    config_count_offset, full_allocated_size, minimum_compat_size, CONFIG_ARRAY_START,
    MAX_CREATOR_LEN, MAX_CREATOR_LIMIT, MAX_NAME_LENGTH, MAX_PERMITTED_DATA_LENGTH,
    MAX_SYMBOL_LENGTH, MAX_URI_LENGTH,
};

fn creator(b: u8, share: u8) -> Creator {
    Creator { address: [b; 32], verified: false, share }
}

fn config(items: u64, symbol: &[u8], creators: usize, hidden: bool) -> CandyMachineData {
    CandyMachineData {
        uuid: b"abcdef".to_vec(),
        symbol: symbol.to_vec(),
        creators: (0..creators).map(|i| creator(i as u8 + 1, 10)).collect(),
        hidden_settings: if hidden {
            Some(HiddenSettings { name: b"Item".to_vec(), uri: b"https://x".to_vec(), hash: [7; 32] })
        } else {
            None
        },
        items_available: items,
    }
}

fn rent(size: u64) -> u64 {
    (128 + size) * 3480 * 2
}

#[test]
fn constants_match_token_metadata() {
    assert_eq!(MAX_SYMBOL_LENGTH, mpl_token_metadata::MAX_SYMBOL_LENGTH);
    assert_eq!(MAX_CREATOR_LIMIT, mpl_token_metadata::MAX_CREATOR_LIMIT);
    assert_eq!(MAX_CREATOR_LEN, mpl_token_metadata::MAX_CREATOR_LEN);
    assert_eq!(MAX_NAME_LENGTH, mpl_token_metadata::MAX_NAME_LENGTH);
    assert_eq!(MAX_URI_LENGTH, mpl_token_metadata::MAX_URI_LENGTH);
    assert_eq!(MAX_PERMITTED_DATA_LENGTH, 10_485_760);
}

#[test]
fn sizes_for_one_hundred_items() {
    assert_eq!(CONFIG_ARRAY_START, 558);
    assert_eq!(config_count_offset(100), Ok(558 + 4 + 24_000));
    assert_eq!(full_allocated_size(100), Ok(24_562 + 4 + 13 + 4 + 400));
    assert_eq!(minimum_compat_size(100), Ok(24_562 + 8 + 26));
    assert_eq!(full_allocated_size(0), Ok(558 + 4 + 4 + 1 + 4));
    assert_eq!(minimum_compat_size(0), Ok(558 + 4 + 8 + 2));
}

#[test]
fn sizes_overflow() {
    assert_eq!(full_allocated_size(u64::MAX), Err(CandyError::NumericalOverflowError));
    assert_eq!(minimum_compat_size(u64::MAX), Err(CandyError::NumericalOverflowError));
    assert_eq!(config_count_offset(u64::MAX / 240 + 1), Err(CandyError::NumericalOverflowError));
}

#[test]
fn sizes_are_monotonic_and_bitmap_covers_items() {
    let mut prev = 0;
    for n in 0..200u64 {
        let s = full_allocated_size(n).unwrap();
        assert!(s >= prev);
        prev = s;
        let room = n / 8 + 1;
        assert!(room >= (n + 7) / 8);
        if n % 8 != 0 {
            assert_eq!(room, (n + 7) / 8);
        }
    }
}

#[test]
fn hidden_settings_size_is_constant() {
    for n in [0u64, 1, 100, 1_000_000, u64::MAX] {
        let d = config(n, b"ABC", 1, true);
        assert_eq!(required_size(&d), Ok(CONFIG_ARRAY_START));
        assert_eq!(get_space_for_candy(&d), Ok(CONFIG_ARRAY_START));
    }
    assert_eq!(required_size(&config(100, b"ABC", 1, false)), Ok(24_983));
    assert_eq!(get_space_for_candy(&config(100, b"ABC", 1, false)), Ok(24_596));
}

#[test]
fn feature_flag_bits() {
    let mut id = vec![0u8; 6];
    set_feature_flag(&mut id, SWAP_REMOVE_FEATURE_INDEX);
    assert_eq!(id, vec![1, 0, 0, 0, 0, 0]);
    let once = id.clone();
    set_feature_flag(&mut id, SWAP_REMOVE_FEATURE_INDEX);
    assert_eq!(id, once);
    let mut other = vec![0u8; 6];
    set_feature_flag(&mut other, 11);
    assert_eq!(other, vec![0, 8, 0, 0, 0, 0]);
    for k in 0..48 {
        assert_eq!(is_feature_active(&other, k), k == 11);
    }
    assert!(!is_feature_active(&other, 48));
    let mut mixed = vec![0x30u8; 6];
    set_feature_flag(&mut mixed, 7);
    assert_eq!(mixed, vec![0xB0, 0x30, 0x30, 0x30, 0x30, 0x30]);
}

#[test]
fn symbol_padding() {
    assert_eq!(pad_symbol(&b"ABC".to_vec()), b"ABC\0\0\0\0\0\0\0".to_vec());
    assert_eq!(pad_symbol(&b"ABCDEFGHIJ".to_vec()), b"ABCDEFGHIJ".to_vec());
    assert_eq!(pad_symbol(&Vec::new()), vec![0u8; 10]);
}

#[test]
fn storage_growth() {
    assert_eq!(rent_top_up(100, 200, 5_000, 4_000), None);
    assert_eq!(rent_top_up(100, 200, 0, 4_000), Some(4_000));
    assert_eq!(rent_top_up(100, 200, 1_000, 4_000), Some(3_000));
    assert_eq!(rent_top_up(100, 200, 4_000, 4_000), None);
    assert_eq!(rent_top_up(200, 200, 0, 4_000), None);
}

fn sample_record() -> CandyMachine {
    CandyMachine {
        authority: [1; 32],
        wallet: [2; 32],
        token_mint: Some([3; 32]),
        items_redeemed: 42,
        data: config(77, b"SYM", 3, true),
    }
}

fn assert_same(a: &CandyMachine, b: &CandyMachine) {
    assert_eq!(a.authority, b.authority);
    assert_eq!(a.wallet, b.wallet);
    assert_eq!(a.token_mint, b.token_mint);
    assert_eq!(a.items_redeemed, b.items_redeemed);
    assert_eq!(a.data.uuid, b.data.uuid);
    assert_eq!(a.data.symbol, b.data.symbol);
    assert_eq!(a.data.items_available, b.data.items_available);
    assert_eq!(a.data.creators.len(), b.data.creators.len());
    for (x, y) in a.data.creators.iter().zip(b.data.creators.iter()) {
        assert_eq!(x.address, y.address);
        assert_eq!(x.verified, y.verified);
        assert_eq!(x.share, y.share);
    }
    match (&a.data.hidden_settings, &b.data.hidden_settings) {
        (Some(x), Some(y)) => {
            assert_eq!(x.name, y.name);
            assert_eq!(x.uri, y.uri);
            assert_eq!(x.hash, y.hash);
        }
        (None, None) => {}
        _ => panic!("hidden settings differ"),
    }
}

#[test]
fn record_round_trip() {
    let r = sample_record();
    let mut out = vec![9u8, 9];
    encode_record(&r, &mut out);
    out.extend_from_slice(&[5, 5, 5]);
    let (back, end) = decode_record(&out, 2).unwrap();
    assert_same(&r, &back);
    assert_eq!(end, out.len() - 3);
}

#[test]
fn record_encoding_bytes() {
    let r = CandyMachine {
        authority: [1; 32],
        wallet: [2; 32],
        token_mint: None,
        items_redeemed: 258,
        data: CandyMachineData {
            uuid: vec![0xAA],
            symbol: vec![],
            creators: vec![],
            hidden_settings: None,
            items_available: 1,
        },
    };
    let mut out = Vec::new();
    encode_record(&r, &mut out);
    let mut expected = vec![1u8; 32];
    expected.extend_from_slice(&[2u8; 32]);
    expected.push(0);
    expected.extend_from_slice(&[2, 1, 0, 0, 0, 0, 0, 0]);
    expected.extend_from_slice(&[1, 0, 0, 0, 0xAA]);
    expected.extend_from_slice(&[0, 0, 0, 0]);
    expected.extend_from_slice(&[0, 0, 0, 0]);
    expected.push(0);
    expected.extend_from_slice(&[1, 0, 0, 0, 0, 0, 0, 0]);
    assert_eq!(out, expected);
}

#[test]
fn decode_rejects_truncated_and_bad_tags() {
    let r = sample_record();
    let mut out = Vec::new();
    encode_record(&r, &mut out);
    assert!(decode_record(&out[..out.len() - 1], 0).is_none());
    let mut bad = out.clone();
    bad[64] = 2;
    assert!(decode_record(&bad, 0).is_none());
    assert!(decode_record(&out, out.len()).is_none());
}

#[test]
fn discriminator_is_digest_prefix() {
    let d = candy_machine_discriminator();
    let h = solana_program::hash::hash(b"account:CandyMachine").to_bytes();
    assert_eq!(&d[..], &h[..8]);
    assert_ne!(&d[..], &b"account:"[..]);
}

#[test]
fn end_to_end_initialization() {
    let data = config(100, b"ABC", 2, false);
    let tag = candy_machine_discriminator();
    let compat = minimum_compat_size(100).unwrap();
    let full = full_allocated_size(100).unwrap();
    let mut account = vec![0xEEu8; compat as usize];
    account[..8].fill(0);
    let lamports = rent(compat);
    let res = initialize_candy_machine(data, [4; 32], [5; 32], None, &mut account, lamports, rent(full));
    assert_eq!(res, Ok(Some(rent(full) - rent(compat))));
    assert_eq!(&account[..8], &tag[..]);
    let (rec, _) = decode_record(&account, 8).unwrap();
    assert_eq!(rec.data.symbol, b"ABC\0\0\0\0\0\0\0".to_vec());
    assert_eq!(rec.data.uuid, vec![1, 0, 0, 0, 0, 0]);
    assert_eq!(rec.authority, [4; 32]);
    assert_eq!(rec.wallet, [5; 32]);
    assert_eq!(rec.token_mint, None);
    assert_eq!(rec.items_redeemed, 0);
    assert_eq!(rec.data.creators.len(), 2);
    let off = config_count_offset(100).unwrap() as usize;
    assert_eq!(off, 24_562);
    assert_eq!(&account[off..off + 4], &[0, 0, 0, 0]);
    assert_eq!(account[off - 1], 0xEE);
    assert_eq!(account[off + 4], 0xEE);
}

#[test]
fn creator_limit() {
    let tag = [0u8; 8];
    let mut account = vec![0u8; 30_000];
    let res = initialize_with_tag(config(100, b"ABC", MAX_CREATOR_LIMIT, false), [4; 32], [5; 32], None, &tag, &mut account, 0, 10);
    assert_eq!(res, Err(CandyError::TooManyCreators));
    assert_eq!(account, vec![0u8; 30_000]);
    let res = initialize_with_tag(config(100, b"ABC", MAX_CREATOR_LIMIT - 1, false), [4; 32], [5; 32], None, &tag, &mut account, 0, 10);
    assert_eq!(res, Ok(None));
}

#[test]
fn initialization_errors() {
    let tag = [0u8; 8];
    let mut account = vec![0u8; 30_000];
    let mismatch = PaymentMint { mint: [8; 32], token_account_mint: [9; 32] };
    let res = initialize_with_tag(config(100, b"ABC", 1, false), [4; 32], [5; 32], Some(mismatch), &tag, &mut account, 0, 10);
    assert_eq!(res, Err(CandyError::PaymentMintMismatch));
    let res = initialize_with_tag(config(100_000, b"ABC", 1, false), [4; 32], [5; 32], None, &tag, &mut account, 0, 10);
    assert_eq!(res, Err(CandyError::ExceedsStorageLimit));
    let res = initialize_with_tag(config(u64::MAX, b"ABC", 1, false), [4; 32], [5; 32], None, &tag, &mut account, 0, 10);
    assert_eq!(res, Err(CandyError::NumericalOverflowError));
    let mut short = vec![0u8; 24_595];
    let res = initialize_with_tag(config(100, b"ABC", 1, false), [4; 32], [5; 32], None, &tag, &mut short, 0, 10);
    assert_eq!(res, Err(CandyError::InsufficientBufferCapacity));
    assert_eq!(short, vec![0u8; 24_595]);
    let mut long_name = config(1, b"ABC", 1, true);
    long_name.hidden_settings.as_mut().unwrap().name = vec![b'n'; 400];
    let mut small = vec![0u8; 600];
    let res = initialize_with_tag(long_name, [4; 32], [5; 32], None, &tag, &mut small, 0, 10);
    assert_eq!(res, Err(CandyError::InsufficientBufferCapacity));
    assert_eq!(small, vec![0u8; 600]);
    let mut long_symbol = config(1, b"ABC", 1, false);
    long_symbol.symbol = vec![b's'; 600];
    let res = initialize_with_tag(long_symbol, [4; 32], [5; 32], None, &tag, &mut account, 0, 10);
    assert_eq!(res, Err(CandyError::SymbolTooLong));
    let mut eleven = config(1, b"ABC", 1, false);
    eleven.symbol = b"ABCDEFGHIJK".to_vec();
    let res = initialize_with_tag(eleven, [4; 32], [5; 32], None, &tag, &mut account, 0, 10);
    assert_eq!(res, Err(CandyError::SymbolTooLong));
    let mut tagged = vec![0u8; 30_000];
    tagged[7] = 1;
    let res = initialize_with_tag(config(100, b"ABC", 1, false), [4; 32], [5; 32], None, &tag, &mut tagged, 0, 10);
    assert_eq!(res, Err(CandyError::AccountNotZeroed));
    assert_eq!(tagged[7], 1);
}

#[test]
fn hidden_settings_with_long_name_fit_the_account() {
    let tag = [0u8; 8];
    let mut data = config(1, b"ABC", MAX_CREATOR_LIMIT - 1, true);
    data.hidden_settings.as_mut().unwrap().name = vec![b'n'; 1500];
    let mut account = vec![0u8; 100_000];
    let res = initialize_with_tag(data, [4; 32], [5; 32], None, &tag, &mut account, 0, 10);
    assert_eq!(res, Ok(None));
    let (rec, _) = decode_record(&account, 8).unwrap();
    assert_eq!(rec.data.creators.len(), MAX_CREATOR_LIMIT - 1);
    assert_eq!(rec.data.hidden_settings.unwrap().name, vec![b'n'; 1500]);
}

#[test]
fn collection_tag_is_digest_prefix() {
    let d = collection_pda_discriminator();
    let h = solana_program::hash::hash(b"account:CollectionPDA").to_bytes();
    assert_eq!(&d[..], &h[..8]);
}

#[test]
fn initialization_with_payment_mint_and_hidden_settings() {
    let tag = [3u8; 8];
    let mut account = vec![0xEEu8; CONFIG_ARRAY_START as usize];
    account[..8].fill(0);
    let mint = PaymentMint { mint: [8; 32], token_account_mint: [8; 32] };
    let res = initialize_with_tag(config(100, b"ABC", 1, true), [4; 32], [5; 32], Some(mint), &tag, &mut account, 0, 1_000_000);
    assert_eq!(res, Ok(None));
    let (rec, end) = decode_record(&account, 8).unwrap();
    assert_eq!(rec.token_mint, Some([8; 32]));
    assert_eq!(rec.data.uuid, vec![0; 6]);
    assert!(end <= account.len());
    assert_eq!(account[account.len() - 1], 0xEE);
}
