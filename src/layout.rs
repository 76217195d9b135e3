use crate::error::CandyError;
use vstd::prelude::*;

verus! {

/// Longest token symbol, in bytes; shorter symbols are padded with zero bytes.
pub const MAX_SYMBOL_LENGTH: usize = 10;

/// Longest item name of a hidden-settings or configuration line, in bytes.
pub const MAX_NAME_LENGTH: usize = 32;

/// Longest item URI of a hidden-settings or configuration line, in bytes.
pub const MAX_URI_LENGTH: usize = 200;

/// Creators of an item, the machine itself included.
pub const MAX_CREATOR_LIMIT: usize = 5;

/// Encoded size of one creator: address, verified flag, share.
pub const MAX_CREATOR_LEN: usize = 32 + 1 + 1;

/// Length of the identifier field that carries the feature flags.
pub const UUID_LENGTH: usize = 6;

/// Largest account the platform lets a program allocate, in bytes.
pub const MAX_PERMITTED_DATA_LENGTH: u64 = 10 * 1024 * 1024;

/// One configuration line: length-prefixed name and length-prefixed URI.
pub const CONFIG_LINE_SIZE: u64 = 4 + 32 + 4 + 200;

/// Bytes reserved for the header record; configuration lines start here.
pub const CONFIG_ARRAY_START: u64 = 8 // account tag
    + 32 // authority
    + 32 // wallet
    + 33 // optional payment mint
    + 8 // items redeemed
    + 4 + 6 // identifier
    + 4 + 10 // symbol
    + 4 + 4 * 34 // creators, one slot left to the machine
    + 1 + 4 + 32 + 4 + 200 + 32 // optional hidden settings
    + 8; // items available

/// Bytes of the used-index bitmap that the layout reserves: one more than `n / 8`.
pub open spec fn bitmap_room(n: nat) -> nat {
    (n / 8 + 1) as nat
}

/// Bytes needed for one bit per item.
pub open spec fn ceil_div8(n: nat) -> nat {
    ((n + 7) / 8) as nat
}

/// Offset of the configuration line count, right after the configuration lines.
pub open spec fn count_offset(n: nat) -> nat {
    (CONFIG_ARRAY_START + 4 + n * CONFIG_LINE_SIZE) as nat
}

/// Size of a fully allocated account: lines, count, bitmap and index array.
pub open spec fn full_size(n: nat) -> nat {
    count_offset(n) + 4 + bitmap_room(n) + 4 + n * 4
}

/// Smallest account accepted at creation, kept for accounts made by older
/// clients that reserved no index array.
pub open spec fn compat_size(n: nat) -> nat {
    count_offset(n) + 8 + 2 * bitmap_room(n)
}

/// Computes `count_offset(n)` with checked arithmetic.
pub fn config_count_offset(items_available: u64) -> (r: Result<u64, CandyError>)
    ensures
        count_offset(items_available as nat) <= u64::MAX ==> r == Ok::<u64, CandyError>(
            count_offset(items_available as nat) as u64,
        ),
        count_offset(items_available as nat) > u64::MAX ==> r == Err::<u64, CandyError>(
            CandyError::NumericalOverflowError,
        ),
{
    let lines = match items_available.checked_mul(CONFIG_LINE_SIZE) {
        Some(v) => v,
        None => return Err(CandyError::NumericalOverflowError),
    };
    match (CONFIG_ARRAY_START + 4).checked_add(lines) {
        Some(v) => Ok(v),
        None => Err(CandyError::NumericalOverflowError),
    }
}

/// Size of a fully allocated account for `items_available` items.
pub fn full_allocated_size(items_available: u64) -> (r: Result<u64, CandyError>)
    ensures
        full_size(items_available as nat) <= u64::MAX ==> r == Ok::<u64, CandyError>(
            full_size(items_available as nat) as u64,
        ),
        full_size(items_available as nat) > u64::MAX ==> r == Err::<u64, CandyError>(
            CandyError::NumericalOverflowError,
        ),
{
    let start = match config_count_offset(items_available) {
        Ok(v) => v,
        Err(e) => return Err(e),
    };
    let bitmap = items_available / 8 + 1;
    let index = match items_available.checked_mul(4) {
        Some(v) => v,
        None => return Err(CandyError::NumericalOverflowError),
    };
    let a = match start.checked_add(4) {
        Some(v) => v,
        None => return Err(CandyError::NumericalOverflowError),
    };
    let b = match a.checked_add(bitmap) {
        Some(v) => v,
        None => return Err(CandyError::NumericalOverflowError),
    };
    let c = match b.checked_add(4) {
        Some(v) => v,
        None => return Err(CandyError::NumericalOverflowError),
    };
    match c.checked_add(index) {
        Some(v) => Ok(v),
        None => Err(CandyError::NumericalOverflowError),
    }
}

/// Smallest account size accepted at creation for `items_available` items
/// without hidden settings.
pub fn minimum_compat_size(items_available: u64) -> (r: Result<u64, CandyError>)
    ensures
        compat_size(items_available as nat) <= u64::MAX ==> r == Ok::<u64, CandyError>(
            compat_size(items_available as nat) as u64,
        ),
        compat_size(items_available as nat) > u64::MAX ==> r == Err::<u64, CandyError>(
            CandyError::NumericalOverflowError,
        ),
{
    let start = match config_count_offset(items_available) {
        Ok(v) => v,
        Err(e) => return Err(e),
    };
    let bitmap2 = 2 * (items_available / 8 + 1);
    let a = match start.checked_add(8) {
        Some(v) => v,
        None => return Err(CandyError::NumericalOverflowError),
    };
    match a.checked_add(bitmap2) {
        Some(v) => Ok(v),
        None => Err(CandyError::NumericalOverflowError),
    }
}

/// Both account sizes grow with the number of items, and the bitmap room
/// holds one bit per item: it is `ceil(n / 8)` bytes exactly when `n` is not
/// a multiple of 8, and one byte more when it is.
pub proof fn lemma_sizes_monotonic(m: nat, n: nat)
    requires
        m <= n,
    ensures
        full_size(m) <= full_size(n),
        compat_size(m) <= compat_size(n),
        bitmap_room(n) >= ceil_div8(n),
        n % 8 != 0 ==> bitmap_room(n) == ceil_div8(n),
        n % 8 == 0 ==> bitmap_room(n) == ceil_div8(n) + 1,
{
    assert(m / 8 <= n / 8) by (nonlinear_arith)
        requires
            m <= n,
    ;
    assert(m * CONFIG_LINE_SIZE <= n * CONFIG_LINE_SIZE) by (nonlinear_arith)
        requires
            m <= n,
    ;
}

} // verus!
