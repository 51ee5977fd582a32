use vstd::prelude::*;
use crate::states::ErrorCode;

verus! {

/// Bytes of a stored round record, its 8-byte type tag included.
pub const POOL_SIZE: u64 = 8 + 1 + 8 + 8 + 8 + 8 + 32 + 8 + 8 + 32;

/// Bytes of one slot of the page index.
pub const PAGES_ENTRY: u64 = 8;

/// Bytes of an empty page index: type tag and vector length.
pub const PAGES_BASE: u64 = 8 + 4;

/// Bytes of one stored deposit.
pub const PAGE_ENTRY: u64 = 32 + 8;

/// Bytes of an empty page: type tag, offset and vector length.
pub const PAGE_BASE: u64 = 8 + 8 + 4;

/// Bytes of a participant record.
pub const USER_SIZE: u64 = 8 + 8;

/// Storage a page needs to hold `n` deposits.
pub fn page_space(n: u64) -> (s: u64)
    requires
        n <= 100,
    ensures
        s == PAGE_ENTRY * n + PAGE_BASE,
{
    PAGE_ENTRY * n + PAGE_BASE
}

/// Storage a page index needs to hold `n` slots, or `None` where that does
/// not fit in 64 bits.
pub fn pages_space(n: u64) -> (s: Option<u64>)
    ensures
        match s {
            Some(v) => v == PAGES_ENTRY * n + PAGES_BASE,
            None => PAGES_ENTRY * n + PAGES_BASE > u64::MAX,
        },
{
    if n > (u64::MAX - PAGES_BASE) / PAGES_ENTRY {
        None
    } else {
        Some(PAGES_ENTRY * n + PAGES_BASE)
    }
}

/// What must be added to a balance of `have` to reach `needed`.
pub fn rent_top_up(needed: u64, have: u64) -> (d: u64)
    ensures
        d == if needed > have { needed - have } else { 0 },
{
    if needed > have {
        needed - have
    } else {
        0
    }
}

/// Whether a record account must still be created before use: `Ok(false)`
/// when this program already owns it, `Ok(true)` when it is an empty
/// account of the system program, and an error otherwise.
pub fn needs_creation(owned_by_program: bool, owned_by_system: bool, data_len: u64) -> (r: Result<bool, ErrorCode>)
    ensures
        r == if owned_by_program {
            Ok::<bool, ErrorCode>(false)
        } else if !owned_by_system {
            Err(ErrorCode::InvalidAccountOwner)
        } else if data_len != 0 {
            Err(ErrorCode::InvalidAccountState)
        } else {
            Ok(true)
        },
{
    if owned_by_program {
        return Ok(false);
    }
    if !owned_by_system {
        return Err(ErrorCode::InvalidAccountOwner);
    }
    if data_len != 0 {
        return Err(ErrorCode::InvalidAccountState);
    }
    Ok(true)
}

} // verus!
