use vstd::prelude::*;
use crate::close::stepped;
use crate::states::{sum_amounts, ErrorCode, Page, PageEntry, Pool, PoolStatus};

verus! {

/// What a resolution reads and writes: the round and its winning page.
#[derive(Clone, Debug)]
pub struct Resolve {
    pub pool: Pool,
    pub page: Page,
}

/// The entries of a page up to and including entry `j`, counted from the
/// page's offset, reach position `w`.
pub open spec fn entry_reaches(entries: Seq<PageEntry>, offset: u64, w: int, j: int) -> bool {
    0 <= j < entries.len() && offset + sum_amounts(entries.take(j + 1)) >= w
}

/// Entry `j` is the first of its page whose cumulative total reaches `w`.
pub open spec fn first_entry(entries: Seq<PageEntry>, offset: u64, w: int, j: int) -> bool {
    entry_reaches(entries, offset, w, j) && forall|k: int|
        0 <= k < j ==> !#[trigger] entry_reaches(entries, offset, w, k)
}

/// The round after resolving its drawn position against `page`.
pub open spec fn resolve_outcome(pool: Pool, page: Page) -> Result<Pool, ErrorCode> {
    let w = pool.winning_entry as int;
    let entries = page.entries@;
    if pool.status != PoolStatus::Selected {
        Err(ErrorCode::PoolClosed)
    } else if exists|j: int| first_entry(entries, page.offset_entries, w, j) {
        let j = choose|j: int| first_entry(entries, page.offset_entries, w, j);
        Ok(Pool { status: PoolStatus::Resolved, winner: entries[j].user, ..pool })
    } else {
        Err(ErrorCode::Overflow)
    }
}

/// Finds the first entry of `page` whose cumulative total reaches `w`.
pub fn find_entry(page: &Page, w: u64) -> (r: Option<usize>)
    ensures
        match r {
            Some(j) => first_entry(page.entries@, page.offset_entries, w as int, j as int),
            None => forall|k: int| !#[trigger] entry_reaches(page.entries@, page.offset_entries, w as int, k),
        },
{
    let mut count: u64 = page.offset_entries;
    let mut j: usize = 0;
    while j < page.entries.len()
        invariant
            0 <= j <= page.entries.len(),
            count as int == page.offset_entries + sum_amounts(page.entries@.take(j as int)),
            j > 0 ==> count < w,
            forall|k: int| 0 <= k < j ==> !#[trigger] entry_reaches(page.entries@, page.offset_entries, w as int, k),
        decreases page.entries.len() - j,
    {
        assert(page.entries@.take(j + 1).drop_last() =~= page.entries@.take(j as int));
        assert(sum_amounts(page.entries@.take(j + 1)) == sum_amounts(page.entries@.take(j as int)) + page.entries@[j as int].amount);
        if count >= w || page.entries[j].amount >= w - count {
            return Some(j);
        }
        count = count + page.entries[j].amount;
        j = j + 1;
    }
    None
}

impl Pool {
    /// Names as winner the depositor whose range on `page` holds the drawn
    /// position. Finding none means the ledger is inconsistent.
    pub fn resolve_with(&mut self, page: &Page) -> (r: Result<(), ErrorCode>)
        ensures
            stepped(resolve_outcome(*old(self), *page), *old(self), *final(self), r),
    {
        if self.status != PoolStatus::Selected {
            return Err(ErrorCode::PoolClosed);
        }
        match find_entry(page, self.winning_entry) {
            Some(j) => {
                proof {
                    let w = self.winning_entry as int;
                    let c = choose|c: int| first_entry(page.entries@, page.offset_entries, w, c);
                    assert(first_entry(page.entries@, page.offset_entries, w, c));
                    if c < j {
                        assert(!entry_reaches(page.entries@, page.offset_entries, w, c));
                    } else if c > j {
                        assert(!entry_reaches(page.entries@, page.offset_entries, w, j as int));
                    }
                }
                self.winner = page.entries[j].user;
                self.status = PoolStatus::Resolved;
                Ok(())
            },
            None => {
                assert(!exists|j: int| first_entry(page.entries@, page.offset_entries, self.winning_entry as int, j));
                Err(ErrorCode::Overflow)
            },
        }
    }
}

/// Resolves the drawn position to the depositor who owns it on the winning
/// page.
pub fn resolve(ctx: &mut Resolve) -> (r: Result<(), ErrorCode>)
    ensures
        final(ctx).page.offset_entries == old(ctx).page.offset_entries,
        final(ctx).page.entries@ == old(ctx).page.entries@,
        stepped(resolve_outcome(old(ctx).pool, old(ctx).page), old(ctx).pool, final(ctx).pool, r),
{
    ctx.pool.resolve_with(&ctx.page)
}

} // verus!
