use vstd::prelude::*;

verus! {

/// Flat fee paid to whoever triggers the payout.
pub const RESOLVER_STATIC_FEE: u64 = 20000000;

/// Service fee in basis points of what is left after the resolver fee.
pub const SERVICE_FEE_BPS: u64 = 100;

/// Number of entries a page holds before the next page is opened.
pub const PAGE_CAPACITY: u64 = 100;

/// Length of one logical day in clock seconds.
pub const SECONDS_PER_DAY: i64 = 86400;

/// Slots that must pass before a stalled close may be attempted again.
pub const CLOSE_RETRY_SLOTS: u64 = 30;

/// Reasons an operation on a round is rejected.
#[derive(Clone, Copy, Debug, PartialEq, Eq, Structural)]
pub enum ErrorCode {
    Overflow,
    BadDayId,
    PoolClosed,
    InvalidAmount,
    PageFull,
    WrongFeeAccount,
    WrongWinnerAccount,
    RandomnessExpired,
    RandomnessAlreadyRevealed,
    InvalidRandomnessAccount,
    RandomnessNotResolved,
    RandomnessValueError,
    InvalidAccountOwner,
    InvalidAccountState,
}

/// Lifecycle of a round: Open -> Closing -> Selected -> Resolved -> Settled.
#[derive(Clone, Copy, Debug, PartialEq, Eq, Structural)]
pub enum PoolStatus {
    Open,
    Closing,
    Selected,
    Resolved,
    Settled,
}

/// A 32-byte account identity.
#[derive(Clone, Copy, Debug, PartialEq, Eq)]
pub struct Key {
    pub bytes: [u8; 32],
}

impl Key {
    /// The all-zero identity, held by fields that are not set yet.
    pub fn zero() -> (k: Key)
        ensures
            forall|i: int| 0 <= i < 32 ==> #[trigger] k.bytes@[i] == 0,
    {
        Key { bytes: [0u8; 32] }
    }

    /// Byte-wise equality of two identities.
    pub fn same(&self, other: &Key) -> (r: bool)
        ensures
            r == (self.bytes@ == other.bytes@),
    {
        let mut i: usize = 0;
        while i < 32
            invariant
                0 <= i <= 32,
                forall|j: int| 0 <= j < i ==> self.bytes@[j] == other.bytes@[j],
            decreases 32 - i,
        {
            if self.bytes[i] != other.bytes[i] {
                return false;
            }
            i = i + 1;
        }
        assert(self.bytes@ =~= other.bytes@);
        true
    }
}

/// The aggregate state of one day's round.
#[derive(Clone, Copy, Debug)]
pub struct Pool {
    pub status: PoolStatus,
    /// Sum of all accepted deposit amounts.
    pub total_entries: u64,
    /// Index of the page that takes the next deposit.
    pub current_page: u64,
    /// Logical day the round belongs to; zero until the first deposit.
    pub day_id: i64,
    /// Seed slot of the randomness committed to by the last accepted close.
    pub close_slot: u64,
    /// Randomness account committed to at close.
    pub randomness_account: Key,
    /// Drawn weighted position, in 1..=total_entries.
    pub winning_entry: u64,
    /// Page whose cumulative range holds the drawn position.
    pub winning_page: u64,
    pub winner: Key,
}

impl Pool {
    /// A fresh, empty, open round.
    pub fn new() -> (p: Pool)
        ensures
            p.status == PoolStatus::Open,
            p.total_entries == 0,
            p.current_page == 0,
            p.day_id == 0,
            p.close_slot == 0,
            p.winning_entry == 0,
            p.winning_page == 0,
            p.randomness_account.bytes@ == Seq::new(32, |i: int| 0u8),
            p.winner.bytes@ == Seq::new(32, |i: int| 0u8),
    {
        let z = Key::zero();
        assert(z.bytes@ =~= Seq::new(32, |i: int| 0u8));
        Pool {
            status: PoolStatus::Open,
            total_entries: 0,
            current_page: 0,
            day_id: 0,
            close_slot: 0,
            randomness_account: z,
            winning_entry: 0,
            winning_page: 0,
            winner: z,
        }
    }
}

/// Per-page cumulative totals: slot `i` holds the sum of page `i`'s amounts.
#[derive(Clone, Debug)]
pub struct Pages {
    pub entries: Vec<u64>,
}

/// One page of deposits, with the total of everything before it.
#[derive(Clone, Debug)]
pub struct Page {
    pub offset_entries: u64,
    pub entries: Vec<PageEntry>,
}

/// One deposit: who made it and its weight.
#[derive(Clone, Copy, Debug, PartialEq, Eq)]
pub struct PageEntry {
    pub user: Key,
    pub amount: u64,
}

/// A participant's running personal total.
#[derive(Clone, Copy, Debug, PartialEq, Eq, Structural)]
pub struct User {
    pub entries: u64,
}

/// Sum of a sequence of totals.
pub open spec fn sum_u64(s: Seq<u64>) -> int
    decreases s.len(),
{
    if s.len() == 0 {
        0
    } else {
        sum_u64(s.drop_last()) + s.last()
    }
}

/// Sum of the amounts of a sequence of deposits.
pub open spec fn sum_amounts(s: Seq<PageEntry>) -> int
    decreases s.len(),
{
    if s.len() == 0 {
        0
    } else {
        sum_amounts(s.drop_last()) + s.last().amount
    }
}

} // verus!
