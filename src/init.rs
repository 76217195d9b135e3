use crate::codec::{
    config_bytes, creator_wf, creators_body, creators_bytes, hidden_bytes,
    key_option_bytes, CreatorModel, keys_equal, record_bytes, record_is_encodable, encode_record, record_wf, CandyMachine, CandyMachineData,
    ConfigModel, RecordModel,
};
use crate::error::CandyError;
use crate::flags::{set_feature_flag, with_flag, SWAP_REMOVE_FEATURE_INDEX};
use crate::layout::{
    compat_size, config_count_offset, count_offset, full_allocated_size, full_size, minimum_compat_size,
    CONFIG_ARRAY_START, MAX_CREATOR_LIMIT, MAX_NAME_LENGTH, MAX_PERMITTED_DATA_LENGTH,
    MAX_SYMBOL_LENGTH, MAX_URI_LENGTH,
};
use vstd::bytes::{
    lemma_auto_spec_u32_to_from_le_bytes, lemma_auto_spec_u64_to_from_le_bytes,
    spec_u32_to_le_bytes, u32_to_le_bytes,
};
use vstd::prelude::*;

verus! {

/// SHA-256 digest of a byte string.
pub uninterp spec fn sha256_of(data: Seq<u8>) -> Seq<u8>;

/// Relies on solana_program::hash::hash: the SHA-256 digest of `data`.
#[verifier::external_body]
fn sha256(data: &[u8]) -> (r: [u8; 32])
    ensures
        r@ == sha256_of(data@),
{
    solana_program::hash::hash(data).to_bytes()
}

/// Text whose digest names the candy machine account type: `account:CandyMachine`.
pub open spec fn account_tag_preimage() -> Seq<u8> {
    seq![97u8, 99, 99, 111, 117, 110, 116, 58, 67, 97, 110, 100, 121, 77, 97, 99, 104, 105, 110, 101]
}

/// Text whose digest names the collection account type: `account:CollectionPDA`.
pub open spec fn collection_tag_preimage() -> Seq<u8> {
    seq![97u8, 99, 99, 111, 117, 110, 116, 58, 67, 111, 108, 108, 101, 99, 116, 105, 111, 110, 80, 68, 65]
}

/// The first eight bytes of the digest of `preimage`.
fn tag_of(preimage: &Vec<u8>) -> (r: [u8; 8])
    ensures
        r@ == sha256_of(preimage@).take(8),
{
    let d = sha256(preimage.as_slice());
    let mut r = [0u8; 8];
    let mut i: usize = 0;
    while i < 8
        invariant
            i <= 8,
            d@.len() == 32,
            r@.len() == 8,
            forall|j: int| 0 <= j < i ==> r@[j] == d@[j],
        decreases 8 - i,
    {
        r[i] = d[i];
        i = i + 1;
    }
    assert(r@ =~= d@.take(8));
    r
}

/// The eight bytes that open every candy machine account: the first bytes
/// of the digest of `account:CandyMachine`.
pub fn candy_machine_discriminator() -> (r: [u8; 8])
    ensures
        r@ == sha256_of(account_tag_preimage()).take(8),
{
    let pre: Vec<u8> = vec![97u8, 99, 99, 111, 117, 110, 116, 58, 67, 97, 110, 100, 121, 77, 97, 99, 104, 105, 110, 101];
    assert(pre@ =~= account_tag_preimage());
    tag_of(&pre)
}

/// The eight bytes that open every collection account of a candy machine:
/// the first bytes of the digest of `account:CollectionPDA`.
pub fn collection_pda_discriminator() -> (r: [u8; 8])
    ensures
        r@ == sha256_of(collection_tag_preimage()).take(8),
{
    let pre: Vec<u8> = vec![97u8, 99, 99, 111, 117, 110, 116, 58, 67, 111, 108, 108, 101, 99, 116, 105, 111, 110, 80, 68, 65];
    assert(pre@ =~= collection_tag_preimage());
    tag_of(&pre)
}

/// The identifier that every new machine starts from: six zero bytes.
pub open spec fn default_uuid() -> Seq<u8> {
    seq![0u8, 0, 0, 0, 0, 0]
}

/// `s` followed by zero bytes up to `MAX_SYMBOL_LENGTH`; unchanged when it
/// is already that long.
pub open spec fn padded_symbol(s: Seq<u8>) -> Seq<u8> {
    if s.len() < MAX_SYMBOL_LENGTH {
        s + Seq::new((MAX_SYMBOL_LENGTH - s.len()) as nat, |i: int| 0u8)
    } else {
        s
    }
}

/// Pads a symbol with zero bytes to `MAX_SYMBOL_LENGTH`.
pub fn pad_symbol(symbol: &Vec<u8>) -> (r: Vec<u8>)
    ensures
        r@ == padded_symbol(symbol@),
        symbol@.len() <= MAX_SYMBOL_LENGTH ==> r@.len() == MAX_SYMBOL_LENGTH,
        r@.take(symbol@.len() as int) == symbol@,
{
    let mut r = symbol.clone();
    assert(r@ == symbol@);
    while r.len() < MAX_SYMBOL_LENGTH
        invariant
            symbol@.len() <= r@.len(),
            r@.take(symbol@.len() as int) == symbol@,
            forall|i: int| symbol@.len() <= i < r@.len() ==> r@[i] == 0u8,
            symbol@.len() >= MAX_SYMBOL_LENGTH ==> r@ == symbol@,
            r@.len() <= MAX_SYMBOL_LENGTH || r@ == symbol@,
        decreases MAX_SYMBOL_LENGTH - r@.len(),
    {
        let ghost prev = r@;
        r.push(0u8);
        assert(r@.take(symbol@.len() as int) =~= prev.take(symbol@.len() as int));
    }
    assert(r@ =~= padded_symbol(symbol@));
    assert(r@.take(symbol@.len() as int) =~= symbol@);
    r
}

/// Size that a machine's account must reach: the header alone under hidden
/// settings, else the fully allocated layout.
pub open spec fn required_size_of(c: ConfigModel) -> nat {
    if c.hidden_settings is Some {
        CONFIG_ARRAY_START as nat
    } else {
        full_size(c.items_available as nat)
    }
}

/// Smallest account accepted at creation: the header alone under hidden
/// settings, else the layout of older clients.
pub open spec fn space_for_candy(c: ConfigModel) -> nat {
    if c.hidden_settings is Some {
        CONFIG_ARRAY_START as nat
    } else {
        compat_size(c.items_available as nat)
    }
}

/// Size the account must reach for this configuration.
pub fn required_size(data: &CandyMachineData) -> (r: Result<u64, CandyError>)
    ensures
        required_size_of(data@) <= u64::MAX ==> r == Ok::<u64, CandyError>(
            required_size_of(data@) as u64,
        ),
        required_size_of(data@) > u64::MAX ==> r == Err::<u64, CandyError>(
            CandyError::NumericalOverflowError,
        ),
{
    if data.hidden_settings.is_some() {
        Ok(CONFIG_ARRAY_START)
    } else {
        full_allocated_size(data.items_available)
    }
}

/// Smallest account size accepted at creation for this configuration.
pub fn get_space_for_candy(data: &CandyMachineData) -> (r: Result<u64, CandyError>)
    ensures
        space_for_candy(data@) <= u64::MAX ==> r == Ok::<u64, CandyError>(
            space_for_candy(data@) as u64,
        ),
        space_for_candy(data@) > u64::MAX ==> r == Err::<u64, CandyError>(
            CandyError::NumericalOverflowError,
        ),
{
    if data.hidden_settings.is_some() {
        Ok(CONFIG_ARRAY_START)
    } else {
        minimum_compat_size(data.items_available)
    }
}

/// Lamports to move into an account of `data_len` bytes so that it can grow
/// to `required` bytes: none when it is large enough already, else what is
/// missing to `minimum_balance`, and none when nothing is missing.
pub open spec fn top_up(data_len: u64, required: u64, lamports: u64, minimum_balance: u64) -> Option<
    u64,
> {
    if data_len >= required || minimum_balance <= lamports {
        None
    } else {
        Some((minimum_balance - lamports) as u64)
    }
}

/// Decides the transfer that funds a later resize of the account to
/// `required` bytes; `minimum_balance` is the rent-exempt balance for that size.
pub fn rent_top_up(data_len: u64, required: u64, lamports: u64, minimum_balance: u64) -> (r: Option<
    u64,
>)
    ensures
        r == top_up(data_len, required, lamports, minimum_balance),
        r matches Some(a) ==> a > 0 && a + lamports == minimum_balance,
{
    if data_len >= required {
        return None;
    }
    let deficit = minimum_balance.saturating_sub(lamports);
    if deficit > 0 {
        Some(deficit)
    } else {
        None
    }
}

/// The mint paid in, with the mint that the wallet's token account records.
#[derive(Clone, Copy, Debug)]
pub struct PaymentMint {
    pub mint: [u8; 32],
    pub token_account_mint: [u8; 32],
}

pub open spec fn payment_view(p: Option<PaymentMint>) -> Option<(Seq<u8>, Seq<u8>)> {
    match p {
        Some(p) => Some((p.mint@, p.token_account_mint@)),
        None => None,
    }
}

/// The record that initialization stores for these inputs.
pub open spec fn prepared_record(
    data: ConfigModel,
    authority: Seq<u8>,
    wallet: Seq<u8>,
    payment: Option<(Seq<u8>, Seq<u8>)>,
) -> RecordModel {
    RecordModel {
        authority,
        wallet,
        token_mint: match payment {
            Some(p) => Some(p.0),
            None => None,
        },
        items_redeemed: 0,
        data: ConfigModel {
            uuid: if data.hidden_settings is Some {
                default_uuid()
            } else {
                with_flag(default_uuid(), SWAP_REMOVE_FEATURE_INDEX as nat)
            },
            symbol: padded_symbol(data.symbol),
            creators: data.creators,
            hidden_settings: data.hidden_settings,
            items_available: data.items_available,
        },
    }
}

/// Whether the tag bytes at the start of the account are all zero, as in an
/// account never initialized.
pub open spec fn tag_is_clear(account: Seq<u8>) -> bool {
    forall|i: int| 0 <= i < 8 && i < account.len() ==> account[i] == 0u8
}

/// Why initialization fails on these inputs, checked in this order; `None`
/// when it succeeds. The header must fit the account and, where
/// configuration lines follow it, the room reserved before them.
pub open spec fn init_error(
    data: ConfigModel,
    authority: Seq<u8>,
    wallet: Seq<u8>,
    payment: Option<(Seq<u8>, Seq<u8>)>,
    account: Seq<u8>,
) -> Option<CandyError> {
    let rec = prepared_record(data, authority, wallet, payment);
    let shown = data.hidden_settings is None;
    let account_len = account.len();
    if !tag_is_clear(account) {
        Some(CandyError::AccountNotZeroed)
    } else if payment matches Some(p) && p.0 != p.1 {
        Some(CandyError::PaymentMintMismatch)
    } else if data.symbol.len() > MAX_SYMBOL_LENGTH {
        Some(CandyError::SymbolTooLong)
    } else if data.creators.len() > MAX_CREATOR_LIMIT - 1 {
        Some(CandyError::TooManyCreators)
    } else if shown && full_size(data.items_available as nat) > u64::MAX {
        Some(CandyError::NumericalOverflowError)
    } else if shown && full_size(data.items_available as nat) > MAX_PERMITTED_DATA_LENGTH {
        Some(CandyError::ExceedsStorageLimit)
    } else if account_len < space_for_candy(data) {
        Some(CandyError::InsufficientBufferCapacity)
    } else if !record_wf(rec) {
        Some(CandyError::InsufficientBufferCapacity)
    } else if shown && 8 + record_bytes(rec).len() > CONFIG_ARRAY_START {
        Some(CandyError::InsufficientBufferCapacity)
    } else if 8 + record_bytes(rec).len() > account_len {
        Some(CandyError::InsufficientBufferCapacity)
    } else {
        None
    }
}

/// `buf` with `bytes` written from offset `at` on.
pub open spec fn overwrite(buf: Seq<u8>, at: int, bytes: Seq<u8>) -> Seq<u8> {
    buf.take(at) + bytes + buf.skip(at + bytes.len())
}

/// The account after initialization: the tag and the record from offset 0
/// and, without hidden settings, a zero line count after the configuration lines.
pub open spec fn initialized_account(buf: Seq<u8>, tag: Seq<u8>, r: RecordModel) -> Seq<u8> {
    let with_header = overwrite(buf, 0, tag + record_bytes(r));
    if r.data.hidden_settings is Some {
        with_header
    } else {
        overwrite(with_header, count_offset(r.data.items_available as nat) as int, spec_u32_to_le_bytes(0))
    }
}

/// The transfer that initialization asks for: none under hidden settings.
pub open spec fn init_funding(data: ConfigModel, account_len: nat, lamports: u64, minimum_balance: u64) -> Option<u64> {
    if data.hidden_settings is Some {
        None
    } else {
        top_up(account_len as u64, full_size(data.items_available as nat) as u64, lamports, minimum_balance)
    }
}

fn write_at(buf: &mut Vec<u8>, at: usize, bytes: &[u8])
    requires
        at + bytes@.len() <= old(buf)@.len(),
    ensures
        final(buf)@ == overwrite(old(buf)@, at as int, bytes@),
{
    let ghost start = buf@;
    let mut i: usize = 0;
    while i < bytes.len()
        invariant
            at + bytes@.len() <= start.len(),
            i <= bytes@.len(),
            buf@.len() == start.len(),
            at + bytes@.len() <= buf.len(),
            forall|j: int| 0 <= j < at ==> buf@[j] == start[j],
            forall|j: int| 0 <= j < i ==> buf@[at + j] == bytes@[j],
            forall|j: int| at + i <= j < start.len() ==> buf@[j] == start[j],
        decreases bytes@.len() - i,
    {
        buf.set(at + i, bytes[i]);
        i = i + 1;
    }
    assert(buf@ =~= overwrite(start, at as int, bytes@));
}

proof fn lemma_compat_within_full(n: nat)
    ensures
        compat_size(n) <= full_size(n) + 1,
        count_offset(n) + 4 <= compat_size(n),
{
    assert(n / 8 <= 4 * n) by (nonlinear_arith);
}

/// Initializes a candy machine account: checks the payment mint, the
/// creators and the size limits, stores the record with its padded symbol
/// and feature flags at offset 0 behind `tag`, and writes a zero line count
/// after the configuration lines. Returns the transfer that funds the later
/// growth of the account, `minimum_balance` being the rent-exempt balance of
/// its required size. On an error the account is left as it was.
pub fn initialize_with_tag(
    data: CandyMachineData,
    authority: [u8; 32],
    wallet: [u8; 32],
    payment: Option<PaymentMint>,
    tag: &[u8; 8],
    account: &mut Vec<u8>,
    lamports: u64,
    minimum_balance: u64,
) -> (r: Result<Option<u64>, CandyError>)
    ensures
        init_error(data@, authority@, wallet@, payment_view(payment), old(account)@) matches Some(e)
            ==> r == Err::<Option<u64>, CandyError>(e) && final(account)@ == old(account)@,
        init_error(data@, authority@, wallet@, payment_view(payment), old(account)@) is None
            ==> r == Ok::<Option<u64>, CandyError>(
            init_funding(data@, old(account)@.len(), lamports, minimum_balance),
        ) && final(account)@ == initialized_account(
            old(account)@,
            tag@,
            prepared_record(data@, authority@, wallet@, payment_view(payment)),
        ),
{
    let ghost rec = prepared_record(data@, authority@, wallet@, payment_view(payment));
    let mut k: usize = 0;
    while k < 8 && k < account.len()
        invariant
            k <= 8,
            forall|j: int| 0 <= j < k && j < account@.len() ==> account@[j] == 0u8,
        decreases 8 - k,
    {
        if account[k] != 0 {
            return Err(CandyError::AccountNotZeroed);
        }
        k = k + 1;
    }
    let token_mint = match &payment {
        Some(p) => {
            if !keys_equal(&p.mint, &p.token_account_mint) {
                return Err(CandyError::PaymentMintMismatch);
            }
            Some(p.mint)
        },
        None => None,
    };
    if data.symbol.len() > MAX_SYMBOL_LENGTH {
        return Err(CandyError::SymbolTooLong);
    }
    if data.creators.len() > MAX_CREATOR_LIMIT - 1 {
        return Err(CandyError::TooManyCreators);
    }
    let hidden = data.hidden_settings.is_some();
    let mut full: u64 = 0;
    if !hidden {
        full = match full_allocated_size(data.items_available) {
            Ok(v) => v,
            Err(e) => return Err(e),
        };
        if full > MAX_PERMITTED_DATA_LENGTH {
            return Err(CandyError::ExceedsStorageLimit);
        }
        proof {
            lemma_compat_within_full(data.items_available as nat);
        }
    }
    let space = match get_space_for_candy(&data) {
        Ok(v) => v,
        Err(e) => return Err(e),
    };
    let account_len = account.len() as u64;
    if account_len < space {
        return Err(CandyError::InsufficientBufferCapacity);
    }
    let CandyMachineData { uuid: _, symbol, creators, hidden_settings, items_available } = data;
    let mut uuid: Vec<u8> = vec![0u8, 0, 0, 0, 0, 0];
    assert(uuid@ =~= default_uuid());
    if !hidden {
        set_feature_flag(&mut uuid, SWAP_REMOVE_FEATURE_INDEX);
    }
    let symbol = pad_symbol(&symbol);
    let record = CandyMachine {
        authority,
        wallet,
        token_mint,
        items_redeemed: 0,
        data: CandyMachineData { uuid, symbol, creators, hidden_settings, items_available },
    };
    assert(record@ == rec);
    if !record_is_encodable(&record) {
        return Err(CandyError::InsufficientBufferCapacity);
    }
    let mut header: Vec<u8> = Vec::new();
    let mut i: usize = 0;
    while i < 8
        invariant
            i <= 8,
            tag@.len() == 8,
            header@ == tag@.take(i as int),
        decreases 8 - i,
    {
        header.push(tag[i]);
        assert(header@ =~= tag@.take(i + 1));
        i = i + 1;
    }
    assert(tag@.take(8) =~= tag@);
    encode_record(&record, &mut header);
    if !hidden && header.len() as u64 > CONFIG_ARRAY_START {
        return Err(CandyError::InsufficientBufferCapacity);
    }
    if header.len() > account.len() {
        return Err(CandyError::InsufficientBufferCapacity);
    }
    write_at(account, 0, header.as_slice());
    if hidden {
        Ok(None)
    } else {
        let offset = match config_count_offset(items_available) {
            Ok(v) => v,
            Err(e) => return Err(e),
        };
        let zero = u32_to_le_bytes(0);
        write_at(account, offset as usize, zero.as_slice());
        Ok(rent_top_up(account_len, full, lamports, minimum_balance))
    }
}

/// Initializes a candy machine account behind the candy machine account
/// tag; see `initialize_with_tag`.
pub fn initialize_candy_machine(
    data: CandyMachineData,
    authority: [u8; 32],
    wallet: [u8; 32],
    payment: Option<PaymentMint>,
    account: &mut Vec<u8>,
    lamports: u64,
    minimum_balance: u64,
) -> (r: Result<Option<u64>, CandyError>)
    ensures
        init_error(data@, authority@, wallet@, payment_view(payment), old(account)@) matches Some(e)
            ==> r == Err::<Option<u64>, CandyError>(e) && final(account)@ == old(account)@,
        init_error(data@, authority@, wallet@, payment_view(payment), old(account)@) is None
            ==> r == Ok::<Option<u64>, CandyError>(
            init_funding(data@, old(account)@.len(), lamports, minimum_balance),
        ) && final(account)@ == initialized_account(
            old(account)@,
            sha256_of(account_tag_preimage()).take(8),
            prepared_record(data@, authority@, wallet@, payment_view(payment)),
        ),
{
    let tag = candy_machine_discriminator();
    initialize_with_tag(data, authority, wallet, payment, &tag, account, lamports, minimum_balance)
}

/// Under hidden settings the required size is the header size, whatever
/// the number of items.
pub proof fn lemma_hidden_size_constant(a: ConfigModel, b: ConfigModel)
    requires
        a.hidden_settings is Some,
        b.hidden_settings is Some,
    ensures
        required_size_of(a) == required_size_of(b),
        required_size_of(a) == CONFIG_ARRAY_START,
        space_for_candy(a) == space_for_candy(b),
{
}

/// An account already holding more than the rent-exempt balance gets no
/// transfer; an empty account that is too small gets exactly that balance.
pub proof fn lemma_top_up_amounts(data_len: u64, required: u64, lamports: u64, minimum_balance: u64)
    ensures
        lamports > minimum_balance ==> top_up(data_len, required, lamports, minimum_balance) is None,
        lamports == 0 && data_len < required && minimum_balance > 0 ==> top_up(
            data_len,
            required,
            lamports,
            minimum_balance,
        ) == Some(minimum_balance),
{
}

/// Padding keeps the symbol as a prefix and fills the rest with zero bytes
/// up to the maximum length; a symbol at the maximum length is unchanged.
pub proof fn lemma_padding(s: Seq<u8>)
    ensures
        s.len() <= MAX_SYMBOL_LENGTH ==> padded_symbol(s).len() == MAX_SYMBOL_LENGTH,
        padded_symbol(s).take(s.len() as int) == s,
        forall|i: int| s.len() <= i < padded_symbol(s).len() ==> padded_symbol(s)[i] == 0u8,
        s.len() == MAX_SYMBOL_LENGTH ==> padded_symbol(s) == s,
{
    assert(padded_symbol(s).take(s.len() as int) =~= s);
}

proof fn lemma_creators_body_len(cs: Seq<CreatorModel>)
    requires
        forall|j: int| 0 <= j < cs.len() ==> #[trigger] creator_wf(cs[j]),
    ensures
        creators_body(cs).len() == 34 * cs.len(),
    decreases cs.len(),
{
    if cs.len() > 0 {
        assert(creator_wf(cs[cs.len() - 1]));
        assert forall|j: int| 0 <= j < cs.drop_last().len() implies #[trigger] creator_wf(
            cs.drop_last()[j],
        ) by {
            assert(creator_wf(cs[j]));
        }
        lemma_creators_body_len(cs.drop_last());
    }
}

/// A machine with at most one creator fewer than the limit initializes,
/// and one with as many creators as the limit fails with `TooManyCreators`,
/// given a symbol within its width, a matching payment mint, an untagged
/// account of at least the minimum size, a layout under the size ceiling,
/// and hidden settings whose name and URI keep within their widths.
pub proof fn lemma_creator_limit(
    data: CandyMachineData,
    authority: [u8; 32],
    wallet: [u8; 32],
    payment: Option<PaymentMint>,
    account: Seq<u8>,
)
    requires
        data@.symbol.len() <= MAX_SYMBOL_LENGTH,
        payment matches Some(p) ==> p.mint@ == p.token_account_mint@,
        tag_is_clear(account),
        account.len() >= space_for_candy(data@),
        data@.hidden_settings is None ==> full_size(data.items_available as nat)
            <= MAX_PERMITTED_DATA_LENGTH,
        data@.hidden_settings matches Some(h) ==> h.name.len() <= MAX_NAME_LENGTH && h.uri.len()
            <= MAX_URI_LENGTH,
    ensures
        data@.creators.len() <= MAX_CREATOR_LIMIT - 1 ==> init_error(
            data@,
            authority@,
            wallet@,
            payment_view(payment),
            account,
        ) is None,
        data@.creators.len() == MAX_CREATOR_LIMIT ==> init_error(
            data@,
            authority@,
            wallet@,
            payment_view(payment),
            account,
        ) == Some(CandyError::TooManyCreators),
{
    let rec = prepared_record(data@, authority@, wallet@, payment_view(payment));
    if data@.creators.len() <= MAX_CREATOR_LIMIT - 1 {
        lemma_auto_spec_u32_to_from_le_bytes();
        lemma_auto_spec_u64_to_from_le_bytes();
        let c = rec.data;
        assert forall|j: int| 0 <= j < c.creators.len() implies #[trigger] creator_wf(
            c.creators[j],
        ) by {}
        lemma_creators_body_len(c.creators);
        assert(c.uuid.len() == 6);
        assert(c.symbol.len() == MAX_SYMBOL_LENGTH);
        assert(creators_bytes(c.creators).len() <= 4 + 34 * 4);
        assert(hidden_bytes(c.hidden_settings).len() <= 1 + 4 + 32 + 4 + 200 + 32);
        assert(config_bytes(c).len() <= 10 + 14 + 140 + 273 + 8);
        assert(key_option_bytes(rec.token_mint).len() <= 33);
        assert(record_bytes(rec).len() <= 32 + 32 + 33 + 8 + 445);
        if data@.hidden_settings is None {
            lemma_compat_within_full(data.items_available as nat);
        }
    }
}

} // verus!
