use vstd::prelude::*;
use crate::states::{ErrorCode, Key, Page, PageEntry, Pages, Pool, PoolStatus, User, PAGE_CAPACITY, SECONDS_PER_DAY};

verus! {

/// What a contribution reads and writes: the depositor, the round, its page
/// index, the active page and the depositor's personal record.
#[derive(Clone, Debug)]
pub struct Entry {
    pub signer: Key,
    pub pool: Pool,
    pub pages: Pages,
    pub page: Page,
    pub user: User,
}

/// Logical day of a clock reading: `floor(now / 86400)`.
pub open spec fn day_of(now: i64) -> int {
    now as int / SECONDS_PER_DAY as int
}

/// Computes the logical day of a clock reading.
pub fn current_day(now: i64) -> (d: i64)
    ensures
        d as int == day_of(now),
{
    if now >= 0 {
        let q = (now as u64) / 86400;
        assert(q as int == day_of(now));
        q as i64
    } else {
        let m = (-(now + 1)) as u64;
        let q = m / 86400;
        assert(-(q as int) - 1 == day_of(now)) by (nonlinear_arith)
            requires
                m as int == -(now as int + 1),
                q as int == m as int / 86400,
                now < 0,
        ;
        -(q as i64) - 1
    }
}

/// The error a contribution is rejected with, if any.
pub open spec fn entry_error(old: Entry, amount: u64, day_id: i64, now: i64) -> Option<ErrorCode> {
    let cp = old.pool.current_page as int;
    let slots = old.pages.entries@;
    if old.pool.status != PoolStatus::Open {
        Some(ErrorCode::PoolClosed)
    } else if old.page.entries@.len() >= PAGE_CAPACITY {
        Some(ErrorCode::PageFull)
    } else if day_id as int != day_of(now) {
        Some(ErrorCode::BadDayId)
    } else if amount == 0 {
        Some(ErrorCode::InvalidAmount)
    } else if old.user.entries + amount > u64::MAX
        || old.pool.total_entries + amount > u64::MAX
        || (cp < slots.len() && slots[cp] + amount > u64::MAX)
        || (old.page.entries@.len() + 1 >= PAGE_CAPACITY && cp + 1 > u64::MAX) {
        Some(ErrorCode::Overflow)
    } else {
        None
    }
}

/// The page index after `amount` is added to the slot of page `cp`, or a
/// new trailing slot when that page has none yet.
pub open spec fn slots_after(slots: Seq<u64>, cp: int, amount: u64) -> Seq<u64> {
    if cp < slots.len() {
        slots.update(cp, (slots[cp] + amount) as u64)
    } else {
        slots.push(amount)
    }
}

/// The state after an accepted contribution of `amount` made on `day_id`.
pub open spec fn entered(old: Entry, new: Entry, amount: u64, day_id: i64) -> bool {
    let cp = old.pool.current_page;
    let full = old.page.entries@.len() + 1 >= PAGE_CAPACITY;
    &&& new.signer == old.signer
    &&& new.user.entries == old.user.entries + amount
    &&& new.pool == (Pool {
        total_entries: (old.pool.total_entries + amount) as u64,
        day_id: if old.pool.day_id == 0 { day_id } else { old.pool.day_id },
        current_page: if full { (cp + 1) as u64 } else { cp },
        ..old.pool
    })
    &&& new.page.offset_entries == if old.page.entries@.len() == 0 {
        old.pool.total_entries
    } else {
        old.page.offset_entries
    }
    &&& new.page.entries@ == old.page.entries@.push(PageEntry { user: old.signer, amount })
    &&& new.pages.entries@ == slots_after(old.pages.entries@, cp as int, amount)
}

/// Records a deposit of `amount` by `ctx.signer` on the round, given the
/// clock reading `now`. A rejected deposit leaves everything unchanged.
pub fn entry(ctx: &mut Entry, amount: u64, day_id: i64, now: i64) -> (r: Result<(), ErrorCode>)
    ensures
        match entry_error(*old(ctx), amount, day_id, now) {
            Some(e) => r == Err::<(), ErrorCode>(e) && *final(ctx) == *old(ctx),
            None => r is Ok && entered(*old(ctx), *final(ctx), amount, day_id),
        },
{
    if ctx.pool.status != PoolStatus::Open {
        return Err(ErrorCode::PoolClosed);
    }
    if ctx.page.entries.len() >= 100 {
        return Err(ErrorCode::PageFull);
    }
    if day_id != current_day(now) {
        return Err(ErrorCode::BadDayId);
    }
    if amount == 0 {
        return Err(ErrorCode::InvalidAmount);
    }
    let user_total = match ctx.user.entries.checked_add(amount) {
        Some(v) => v,
        None => return Err(ErrorCode::Overflow),
    };
    let total = match ctx.pool.total_entries.checked_add(amount) {
        Some(v) => v,
        None => return Err(ErrorCode::Overflow),
    };
    let cp = ctx.pool.current_page;
    let has_slot = cp < ctx.pages.entries.len() as u64;
    let mut slot_total: u64 = amount;
    if has_slot {
        slot_total = match ctx.pages.entries[cp as usize].checked_add(amount) {
            Some(v) => v,
            None => return Err(ErrorCode::Overflow),
        };
    }
    let full = ctx.page.entries.len() + 1 >= 100;
    let mut next_page: u64 = cp;
    if full {
        next_page = match cp.checked_add(1) {
            Some(v) => v,
            None => return Err(ErrorCode::Overflow),
        };
    }
    ctx.user.entries = user_total;
    if ctx.pool.day_id == 0 {
        ctx.pool.day_id = day_id;
    }
    if ctx.page.entries.len() == 0 {
        ctx.page.offset_entries = ctx.pool.total_entries;
    }
    ctx.pool.total_entries = total;
    ctx.page.entries.push(PageEntry { user: ctx.signer, amount });
    if has_slot {
        ctx.pages.entries.set(cp as usize, slot_total);
    } else {
        ctx.pages.entries.push(amount);
    }
    ctx.pool.current_page = next_page;
    Ok(())
}

} // verus!
