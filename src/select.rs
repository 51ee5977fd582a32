use vstd::prelude::*;
use crate::close::stepped;
use crate::randomness::{le_u64, parse_randomness, parsed_from, random_number, Randomness};
use crate::states::{sum_u64, ErrorCode, Key, Pages, Pool, PoolStatus};

verus! {

/// What a selection reads and writes: the round, its page index, and the
/// randomness account it committed to, by identity and raw data.
#[derive(Clone, Debug)]
pub struct Select {
    pub pool: Pool,
    pub pages: Pages,
    pub randomness_account: Key,
    pub randomness_account_data: Vec<u8>,
}

/// The pages up to and including page `i` hold position `w`.
pub open spec fn page_reaches(slots: Seq<u64>, w: int, i: int) -> bool {
    0 <= i < slots.len() && sum_u64(slots.take(i + 1)) >= w
}

/// Page `i` is the first page whose cumulative range reaches `w`.
pub open spec fn first_page(slots: Seq<u64>, w: int, i: int) -> bool {
    page_reaches(slots, w, i) && forall|k: int| 0 <= k < i ==> !#[trigger] page_reaches(slots, w, k)
}

/// The page that holds position `w`, or `dflt` when no page reaches it.
pub open spec fn page_of(slots: Seq<u64>, w: int, dflt: u64) -> u64 {
    if exists|i: int| first_page(slots, w, i) {
        (choose|i: int| first_page(slots, w, i)) as u64
    } else {
        dflt
    }
}

/// The drawn position for a random number: `(n mod total) + 1`.
pub open spec fn position_of(n: int, total: u64) -> int {
    n % (total as int) + 1
}

/// The round after a selection in slot `slot`, given the identity of the
/// supplied randomness account and what its data parsed to.
pub open spec fn select_outcome(pool: Pool, slots: Seq<u64>, account: Key, rnd: Option<Randomness>, slot: u64) -> Result<Pool, ErrorCode> {
    if pool.status != PoolStatus::Closing {
        Err(ErrorCode::PoolClosed)
    } else if account.bytes@ != pool.randomness_account.bytes@ {
        Err(ErrorCode::InvalidRandomnessAccount)
    } else {
        match rnd {
            None => Err(ErrorCode::InvalidRandomnessAccount),
            Some(v) => if v.seed_slot != pool.close_slot {
                Err(ErrorCode::RandomnessExpired)
            } else if v.reveal_slot != slot {
                Err(ErrorCode::RandomnessNotResolved)
            } else if pool.total_entries == 0 {
                Err(ErrorCode::Overflow)
            } else {
                let w = position_of(le_u64(v.value@.subrange(0, 8)), pool.total_entries);
                Ok(Pool {
                    status: PoolStatus::Selected,
                    winning_entry: w as u64,
                    winning_page: page_of(slots, w, pool.winning_page),
                    ..pool
                })
            },
        }
    }
}

proof fn lemma_first_page_unique(slots: Seq<u64>, w: int, i: u64, dflt: u64)
    requires
        first_page(slots, w, i as int),
    ensures
        page_of(slots, w, dflt) == i,
{
    let j = choose|j: int| first_page(slots, w, j);
    assert(first_page(slots, w, j));
    if j < i {
        assert(!page_reaches(slots, w, j));
    } else if j > i {
        assert(!page_reaches(slots, w, i as int));
    }
}

/// Finds the first page whose cumulative range reaches `w`.
pub fn find_page(slots: &Vec<u64>, w: u64) -> (r: Option<u64>)
    requires
        w >= 1,
    ensures
        match r {
            Some(i) => first_page(slots@, w as int, i as int),
            None => forall|k: int| !#[trigger] page_reaches(slots@, w as int, k),
        },
{
    let mut count: u64 = 0;
    let mut i: usize = 0;
    while i < slots.len()
        invariant
            0 <= i <= slots.len(),
            count as int == sum_u64(slots@.take(i as int)),
            count < w,
            forall|k: int| 0 <= k < i ==> !#[trigger] page_reaches(slots@, w as int, k),
        decreases slots.len() - i,
    {
        assert(slots@.take(i + 1).drop_last() =~= slots@.take(i as int));
        if slots[i] >= w - count {
            return Some(i as u64);
        }
        count = count + slots[i];
        i = i + 1;
    }
    None
}

impl Pool {
    /// Draws the winning position from the randomness account `account`,
    /// whose data parsed to `rnd`, revealed in slot `slot`, and records the
    /// page whose cumulative range holds it.
    pub fn select_with(&mut self, pages: &Pages, account: Key, rnd: Option<Randomness>, slot: u64) -> (r: Result<(), ErrorCode>)
        ensures
            stepped(select_outcome(*old(self), pages.entries@, account, rnd, slot), *old(self), *final(self), r),
    {
        if self.status != PoolStatus::Closing {
            return Err(ErrorCode::PoolClosed);
        }
        if !account.same(&self.randomness_account) {
            return Err(ErrorCode::InvalidRandomnessAccount);
        }
        let v = match rnd {
            None => return Err(ErrorCode::InvalidRandomnessAccount),
            Some(v) => v,
        };
        if v.seed_slot != self.close_slot {
            return Err(ErrorCode::RandomnessExpired);
        }
        let value = match v.get_value(slot) {
            None => return Err(ErrorCode::RandomnessNotResolved),
            Some(value) => value,
        };
        if self.total_entries == 0 {
            return Err(ErrorCode::Overflow);
        }
        let n = random_number(&value);
        let w = n % self.total_entries + 1;
        assert(w as int == position_of(le_u64(v.value@.subrange(0, 8)), self.total_entries));
        match find_page(&pages.entries, w) {
            Some(i) => {
                proof {
                    lemma_first_page_unique(pages.entries@, w as int, i, self.winning_page);
                }
                self.winning_page = i;
            },
            None => {
                assert(!exists|i: int| first_page(pages.entries@, w as int, i));
            },
        }
        self.winning_entry = w;
        self.status = PoolStatus::Selected;
        Ok(())
    }
}

/// Reveals the committed randomness in slot `slot`, draws the winning
/// position in `1..=total_entries` and locates its page.
pub fn select(ctx: &mut Select, slot: u64) -> (r: Result<(), ErrorCode>)
    ensures
        final(ctx).pages.entries@ == old(ctx).pages.entries@,
        final(ctx).randomness_account == old(ctx).randomness_account,
        final(ctx).randomness_account_data@ == old(ctx).randomness_account_data@,
        exists|rnd: Option<Randomness>|
            parsed_from(old(ctx).randomness_account_data@, rnd) && #[trigger] stepped(
                select_outcome(old(ctx).pool, old(ctx).pages.entries@, old(ctx).randomness_account, rnd, slot),
                old(ctx).pool,
                final(ctx).pool,
                r,
            ),
{
    let rnd = parse_randomness(ctx.randomness_account_data.as_slice());
    let r = ctx.pool.select_with(&ctx.pages, ctx.randomness_account, rnd, slot);
    assert(parsed_from(old(ctx).randomness_account_data@, rnd));
    r
}

} // verus!
