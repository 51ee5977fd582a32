use vstd::prelude::*;
use crate::entry::{entered, entry_error, Entry};
use crate::payout::plan_of;
use crate::resolve::{entry_reaches, first_entry};
use crate::select::{first_page, page_of, page_reaches};
use crate::states::{sum_amounts, sum_u64, Page, PageEntry, Pool, PAGE_CAPACITY, SERVICE_FEE_BPS};

verus! {

/// Page `i` of a round agrees with slot `i` of its page index: the slot holds
/// the page's total, the page's offset the total of the slots before it, and
/// the page holds at most `PAGE_CAPACITY` entries.
pub open spec fn page_sound(page: Page, slots: Seq<u64>, i: int) -> bool {
    &&& slots[i] == sum_amounts(page.entries@)
    &&& page.offset_entries == sum_u64(slots.take(i))
    &&& page.entries@.len() <= PAGE_CAPACITY
}

/// The whole ledger of a round, `book[i]` being its page `i`: one slot per
/// page, slots summing to the round's total, every page sound, every page but
/// the last full, and the active page being the last one unless it is full.
pub open spec fn ledger(pool: Pool, slots: Seq<u64>, book: Seq<Page>) -> bool {
    let n = book.len();
    &&& slots.len() == n
    &&& sum_u64(slots) == pool.total_entries
    &&& forall|i: int| 0 <= i < n ==> page_sound(#[trigger] book[i], slots, i)
    &&& forall|i: int| 0 <= i < n - 1 ==> (#[trigger] book[i]).entries@.len() == PAGE_CAPACITY
    &&& if n == 0 {
        pool.current_page == 0
    } else if book[n - 1].entries@.len() == PAGE_CAPACITY {
        pool.current_page == n
    } else {
        pool.current_page == n - 1
    }
}

/// `page` is what the ledger holds as the active page: the stored page, or a
/// new empty one when the active page is not created yet.
pub open spec fn is_active_page(pool: Pool, book: Seq<Page>, page: Page) -> bool {
    if pool.current_page < book.len() {
        page.entries@ == book[pool.current_page as int].entries@
            && page.offset_entries == book[pool.current_page as int].offset_entries
    } else {
        page.entries@.len() == 0
    }
}

/// The ledger with page `cp` stored as `page`.
pub open spec fn book_after(book: Seq<Page>, cp: int, page: Page) -> Seq<Page> {
    if cp < book.len() {
        book.update(cp, page)
    } else {
        book.push(page)
    }
}

/// The cumulative weight before entry `j` of page `p`.
pub open spec fn before(slots: Seq<u64>, book: Seq<Page>, p: int, j: int) -> int {
    sum_u64(slots.take(p)) + sum_amounts(book[p].entries@.take(j))
}

/// Entry `j` of page `p` owns position `w`: `w` lies in its range
/// `(before, before + amount]`.
pub open spec fn owns(slots: Seq<u64>, book: Seq<Page>, p: int, j: int, w: int) -> bool {
    &&& 0 <= p < book.len()
    &&& 0 <= j < book[p].entries@.len()
    &&& before(slots, book, p, j) < w <= before(slots, book, p, j) + book[p].entries@[j].amount
}

proof fn lemma_sum_step(s: Seq<u64>, i: int)
    requires
        0 <= i < s.len(),
    ensures
        sum_u64(s.take(i + 1)) == sum_u64(s.take(i)) + s[i],
{
    assert(s.take(i + 1).drop_last() =~= s.take(i));
}

proof fn lemma_amounts_step(s: Seq<PageEntry>, j: int)
    requires
        0 <= j < s.len(),
    ensures
        sum_amounts(s.take(j + 1)) == sum_amounts(s.take(j)) + s[j].amount,
{
    assert(s.take(j + 1).drop_last() =~= s.take(j));
}

proof fn lemma_sum_mono(s: Seq<u64>, i: int, k: int)
    requires
        0 <= i <= k <= s.len(),
    ensures
        sum_u64(s.take(i)) <= sum_u64(s.take(k)),
    decreases k - i,
{
    if i < k {
        lemma_sum_step(s, k - 1);
        lemma_sum_mono(s, i, k - 1);
    }
}

proof fn lemma_amounts_mono(s: Seq<PageEntry>, i: int, k: int)
    requires
        0 <= i <= k <= s.len(),
    ensures
        sum_amounts(s.take(i)) <= sum_amounts(s.take(k)),
    decreases k - i,
{
    if i < k {
        lemma_amounts_step(s, k - 1);
        lemma_amounts_mono(s, i, k - 1);
    }
}

proof fn lemma_sum_update(s: Seq<u64>, i: int, v: u64)
    requires
        0 <= i < s.len(),
    ensures
        sum_u64(s.update(i, v)) == sum_u64(s) - s[i] + v,
    decreases s.len(),
{
    let u = s.update(i, v);
    if i == s.len() - 1 {
        assert(u.drop_last() =~= s.drop_last());
    } else {
        assert(u.drop_last() =~= s.drop_last().update(i, v));
        lemma_sum_update(s.drop_last(), i, v);
    }
}

proof fn lemma_first_page_exists(slots: Seq<u64>, w: int, i: int)
    requires
        page_reaches(slots, w, i),
    ensures
        exists|k: int| first_page(slots, w, k),
    decreases i,
{
    if exists|k: int| 0 <= k < i && #[trigger] page_reaches(slots, w, k) {
        let k = choose|k: int| 0 <= k < i && #[trigger] page_reaches(slots, w, k);
        lemma_first_page_exists(slots, w, k);
    } else {
        assert(first_page(slots, w, i));
    }
}

proof fn lemma_first_entry_exists(entries: Seq<PageEntry>, offset: u64, w: int, j: int)
    requires
        entry_reaches(entries, offset, w, j),
    ensures
        exists|k: int| first_entry(entries, offset, w, k),
    decreases j,
{
    if exists|k: int| 0 <= k < j && #[trigger] entry_reaches(entries, offset, w, k) {
        let k = choose|k: int| 0 <= k < j && #[trigger] entry_reaches(entries, offset, w, k);
        lemma_first_entry_exists(entries, offset, w, k);
    } else {
        assert(first_entry(entries, offset, w, j));
    }
}

/// An accepted contribution keeps the ledger invariant: the round's total
/// grows by exactly the amount and still equals the sum of the page index,
/// no page holds more than `PAGE_CAPACITY` entries (a full page is never
/// appended to), and no stored page's offset changes.
pub proof fn lemma_entry_keeps_ledger(old: Entry, new: Entry, amount: u64, day_id: i64, now: i64, book: Seq<Page>)
    requires
        ledger(old.pool, old.pages.entries@, book),
        is_active_page(old.pool, book, old.page),
        entry_error(old, amount, day_id, now) is None,
        entered(old, new, amount, day_id),
    ensures
        new.pool.total_entries == old.pool.total_entries + amount,
        ledger(new.pool, new.pages.entries@, book_after(book, old.pool.current_page as int, new.page)),
        old.page.entries@.len() < PAGE_CAPACITY,
        forall|i: int| 0 <= i < book.len() ==>
            (#[trigger] book_after(book, old.pool.current_page as int, new.page)[i]).offset_entries
                == book[i].offset_entries,
{
    let n = book.len() as int;
    let cp = old.pool.current_page as int;
    let slots = old.pages.entries@;
    let slots2 = new.pages.entries@;
    let book2 = book_after(book, cp, new.page);
    let e = PageEntry { user: old.signer, amount };
    assert(new.page.entries@.drop_last() =~= old.page.entries@);
    assert(sum_amounts(new.page.entries@) == sum_amounts(old.page.entries@) + amount);
    if cp < n {
        assert(cp == n - 1);
        assert(page_sound(book[cp], slots, cp));
        lemma_sum_update(slots, cp, (slots[cp] + amount) as u64);
        lemma_sum_step(slots, cp);
        assert(slots.take(cp + 1) =~= slots);
        assert(slots2.take(cp) =~= slots.take(cp));
        assert forall|i: int| 0 <= i < n implies page_sound(#[trigger] book2[i], slots2, i) by {
            if i < cp {
                assert(page_sound(book[i], slots, i));
                assert(slots2.take(i) =~= slots.take(i));
            }
        }
        assert forall|i: int| 0 <= i < n - 1 implies (#[trigger] book2[i]).entries@.len() == PAGE_CAPACITY by {
            assert(book[i].entries@.len() == PAGE_CAPACITY);
        }
    } else {
        assert(cp == n);
        assert(slots2 =~= slots.push(amount));
        assert(slots2.drop_last() =~= slots);
        assert(slots2.take(n) =~= slots);
        assert(new.page.entries@ =~= seq![e]);
        assert(new.page.entries@.drop_last() =~= Seq::<PageEntry>::empty());
        assert forall|i: int| 0 <= i < n + 1 implies page_sound(#[trigger] book2[i], slots2, i) by {
            if i < n {
                assert(page_sound(book[i], slots, i));
                assert(slots2.take(i) =~= slots.take(i));
            }
        }
        assert forall|i: int| 0 <= i < n implies (#[trigger] book2[i]).entries@.len() == PAGE_CAPACITY by {
            if i < n - 1 {
                assert(book[i].entries@.len() == PAGE_CAPACITY);
            }
        }
    }
    assert forall|i: int| 0 <= i < book.len() implies (#[trigger] book2[i]).offset_entries == book[i].offset_entries by {
        assert(page_sound(book[i], slots, i));
    }
}

/// In a sound ledger every position `w` in `1..=total_entries` has exactly
/// one owner, and it is the one selection and resolution find: the first
/// page whose cumulative total reaches `w`, then the first entry of that page
/// whose cumulative total, counted from the page's offset, reaches it.
pub proof fn lemma_draw_finds_owner(pool: Pool, slots: Seq<u64>, book: Seq<Page>, w: int, dflt: u64)
    requires
        ledger(pool, slots, book),
        1 <= w <= pool.total_entries,
    ensures
        first_page(slots, w, page_of(slots, w, dflt) as int),
        forall|p: int, j: int|
            first_page(slots, w, p) && first_entry(book[p].entries@, book[p].offset_entries, w, j)
                ==> owns(slots, book, p, j, w),
        forall|p: int| #[trigger] first_page(slots, w, p) ==> exists|j: int|
            first_entry(book[p].entries@, book[p].offset_entries, w, j),
        forall|p: int, j: int, pb: int, jb: int|
            #[trigger] owns(slots, book, p, j, w) && #[trigger] owns(slots, book, pb, jb, w)
                ==> p == pb && j == jb,
{
    let n = book.len() as int;
    assert(slots.take(n) =~= slots);
    assert(page_reaches(slots, w, n - 1));
    lemma_first_page_exists(slots, w, n - 1);
    let p0 = choose|p: int| first_page(slots, w, p);
    assert(first_page(slots, w, p0));
    assert forall|p: int| #[trigger] first_page(slots, w, p) implies exists|j: int|
        first_entry(book[p].entries@, book[p].offset_entries, w, j) by {
        let es = book[p].entries@;
        assert(page_sound(book[p], slots, p));
        lemma_sum_step(slots, p);
        assert(es.take(es.len() as int) =~= es);
        if es.len() == 0 {
            if p > 0 {
                lemma_sum_step(slots, p - 1);
                assert(!page_reaches(slots, w, p - 1));
                assert(false);
            }
        } else {
            assert(entry_reaches(es, book[p].offset_entries, w, es.len() - 1));
            lemma_first_entry_exists(es, book[p].offset_entries, w, es.len() - 1);
        }
    }
    assert forall|p: int, j: int|
        first_page(slots, w, p) && first_entry(book[p].entries@, book[p].offset_entries, w, j)
            implies owns(slots, book, p, j, w) by {
        let es = book[p].entries@;
        assert(page_sound(book[p], slots, p));
        lemma_amounts_step(es, j);
        if j > 0 {
            lemma_amounts_step(es, j - 1);
            assert(!entry_reaches(es, book[p].offset_entries, w, j - 1));
        } else if p > 0 {
            lemma_sum_step(slots, p - 1);
            assert(!page_reaches(slots, w, p - 1));
        }
    }
    assert forall|p: int, j: int, pb: int, jb: int|
        #[trigger] owns(slots, book, p, j, w) && #[trigger] owns(slots, book, pb, jb, w)
            implies p == pb && j == jb by {
        lemma_owner_position(slots, book, p, j, w);
        lemma_owner_position(slots, book, pb, jb, w);
        if p < pb {
            lemma_sum_mono(slots, p + 1, pb);
        } else if pb < p {
            lemma_sum_mono(slots, pb + 1, p);
        } else {
            let es = book[p].entries@;
            lemma_amounts_step(es, j);
            lemma_amounts_step(es, jb);
            if j < jb {
                lemma_amounts_mono(es, j + 1, jb);
            } else if jb < j {
                lemma_amounts_mono(es, jb + 1, j);
            }
        }
    }
}

/// An owner of `w` lies on a page whose cumulative range holds `w`.
proof fn lemma_owner_position(slots: Seq<u64>, book: Seq<Page>, p: int, j: int, w: int)
    requires
        slots.len() == book.len(),
        page_sound(book[p], slots, p),
        owns(slots, book, p, j, w),
    ensures
        sum_u64(slots.take(p)) < w <= sum_u64(slots.take(p + 1)),
{
    let es = book[p].entries@;
    lemma_sum_step(slots, p);
    lemma_amounts_step(es, j);
    lemma_amounts_mono(es, j + 1, es.len() as int);
    lemma_amounts_mono(es, 0, j);
    assert(es.take(0) =~= Seq::<PageEntry>::empty());
    assert(es.take(es.len() as int) =~= es);
}

/// The payout waterfall never pays out more than the pot, and pays the
/// winner either nothing or enough to lift the winner's balance to the floor.
/// Whenever the pot left after the resolver fee covers the service fee and
/// what the winner lacks of the floor, the winner is paid at least that lack.
pub proof fn lemma_payout_waterfall(pot: u64, held: u64, floor: u64)
    ensures
        plan_of(pot, held, floor).resolver_fee + plan_of(pot, held, floor).service_fee
            + plan_of(pot, held, floor).prize == pot,
        plan_of(pot, held, floor).prize > 0 ==> held + plan_of(pot, held, floor).prize >= floor,
        ({
            let rest = pot - plan_of(pot, held, floor).resolver_fee;
            rest >= rest * SERVICE_FEE_BPS / 10000 + (floor - held) ==> held
                + plan_of(pot, held, floor).prize >= floor
        }),
{
    let rest = pot - plan_of(pot, held, floor).resolver_fee;
    assert(0 <= rest * SERVICE_FEE_BPS / 10000 <= rest) by (nonlinear_arith)
        requires
            rest >= 0,
            SERVICE_FEE_BPS == 100,
    ;
}

/// A new round with no pages satisfies the ledger invariant.
pub proof fn lemma_ledger_empty(pool: Pool)
    requires
        pool.total_entries == 0,
        pool.current_page == 0,
    ensures
        ledger(pool, Seq::empty(), Seq::empty()),
{
}

} // verus!
