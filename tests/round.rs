use bidder::{
    close, entry, fee_account, find_entry, find_page, payout, payout_plan, random_number, resolve,
    select, Close, Entry, ErrorCode, Key, Page, PageEntry, Pages, Payout, Pool, PoolStatus, Resolve,
    Select, User,
};

const DAY: i64 = 19000;
const NOW: i64 = DAY * 86400 + 3600;

fn key(n: u8) -> Key {
    Key { bytes: [n; 32] }
}

/// A round as stored: the pool, its page index and every page by index.
struct Round {
    pool: Pool,
    pages: Pages,
    book: Vec<Page>,
}

impl Round {
    fn new() -> Round {
        Round { pool: Pool::new(), pages: Pages { entries: vec![] }, book: vec![] }
    }

    fn contribute(&mut self, who: u8, amount: u64) -> Result<(), ErrorCode> {
        let cp = self.pool.current_page as usize;
        let page = if cp < self.book.len() {
            self.book[cp].clone()
        } else {
            Page { offset_entries: 0, entries: vec![] }
        };
        let mut ctx = Entry {
            signer: key(who),
            pool: self.pool,
            pages: self.pages.clone(),
            page,
            user: User { entries: 0 },
        };
        entry(&mut ctx, amount, DAY, NOW)?;
        self.pool = ctx.pool;
        self.pages = ctx.pages;
        if cp < self.book.len() {
            self.book[cp] = ctx.page;
        } else {
            self.book.push(ctx.page);
        }
        Ok(())
    }
}

fn randomness_data(seed_slot: u64, reveal_slot: u64, number: u64) -> Vec<u8> {
    let mut d = vec![0u8; 408];
    d[0..8].copy_from_slice(&[10, 66, 229, 135, 220, 239, 217, 114]);
    d[104..112].copy_from_slice(&seed_slot.to_le_bytes());
    d[144..152].copy_from_slice(&reveal_slot.to_le_bytes());
    d[152..160].copy_from_slice(&number.to_le_bytes());
    d
}

fn resolved_pool(winner: Key) -> Pool {
    let mut pool = Pool::new();
    pool.status = PoolStatus::Resolved;
    pool.total_entries = 1_000_000_000;
    pool.winner = winner;
    pool
}

#[test]
fn contributions_add_up_across_pages() {
    let mut round = Round::new();
    for i in 0..250u64 {
        round.contribute((i % 7) as u8, i + 1).unwrap();
    }
    let expected: u64 = (1..=250u64).sum();
    assert_eq!(round.pool.total_entries, expected);
    assert_eq!(round.pages.entries.iter().sum::<u64>(), expected);
    assert_eq!(round.book.len(), 3);
    assert_eq!(round.pool.current_page, 2);
    assert_eq!(round.book[0].entries.len(), 100);
    assert_eq!(round.book[1].entries.len(), 100);
    assert_eq!(round.book[2].entries.len(), 50);
    assert_eq!(round.book[0].offset_entries, 0);
    assert_eq!(round.book[1].offset_entries, round.pages.entries[0]);
    assert_eq!(round.book[2].offset_entries, round.pages.entries[0] + round.pages.entries[1]);
    for (i, page) in round.book.iter().enumerate() {
        assert_eq!(page.entries.iter().map(|e| e.amount).sum::<u64>(), round.pages.entries[i]);
    }
}

#[test]
fn first_contribution_fixes_day_and_offset() {
    let mut round = Round::new();
    round.contribute(1, 40).unwrap();
    assert_eq!(round.pool.day_id, DAY);
    assert_eq!(round.pages.entries, vec![40]);
    assert_eq!(round.book[0].entries, vec![PageEntry { user: key(1), amount: 40 }]);
}

#[test]
fn full_page_is_rejected() {
    let mut pool = Pool::new();
    pool.total_entries = 100;
    let entries = (0..100).map(|_| PageEntry { user: key(1), amount: 1 }).collect();
    let mut ctx = Entry {
        signer: key(2),
        pool,
        pages: Pages { entries: vec![100] },
        page: Page { offset_entries: 0, entries },
        user: User { entries: 0 },
    };
    assert_eq!(entry(&mut ctx, 5, DAY, NOW), Err(ErrorCode::PageFull));
    assert_eq!(ctx.page.entries.len(), 100);
    assert_eq!(ctx.pool.total_entries, 100);
}

#[test]
fn entry_errors() {
    let mut round = Round::new();
    assert_eq!(round.contribute(1, 0), Err(ErrorCode::InvalidAmount));
    let mut ctx = Entry {
        signer: key(1),
        pool: Pool::new(),
        pages: Pages { entries: vec![] },
        page: Page { offset_entries: 0, entries: vec![] },
        user: User { entries: 0 },
    };
    assert_eq!(entry(&mut ctx, 5, DAY - 1, NOW), Err(ErrorCode::BadDayId));
    ctx.pool.total_entries = u64::MAX - 2;
    assert_eq!(entry(&mut ctx, 5, DAY, NOW), Err(ErrorCode::Overflow));
    assert_eq!(ctx.pool.total_entries, u64::MAX - 2);
    assert!(ctx.page.entries.is_empty());
    ctx.pool.status = PoolStatus::Closing;
    assert_eq!(entry(&mut ctx, 5, DAY, NOW), Err(ErrorCode::PoolClosed));
    ctx.pool.status = PoolStatus::Open;
    ctx.pool.total_entries = 0;
    ctx.user.entries = u64::MAX;
    assert_eq!(entry(&mut ctx, 1, DAY, NOW), Err(ErrorCode::Overflow));
    assert_eq!(entry(&mut ctx, 1, -1, -5), Err(ErrorCode::Overflow));
    assert_eq!(entry(&mut ctx, 1, -2, -86401), Err(ErrorCode::Overflow));
    assert_eq!(entry(&mut ctx, 1, 0, -1), Err(ErrorCode::BadDayId));
}

#[test]
fn scenario_three_entries_one_page() {
    let mut round = Round::new();
    round.contribute(0xA, 100).unwrap();
    round.contribute(0xB, 50).unwrap();
    round.contribute(0xC, 100).unwrap();
    assert_eq!(round.pool.total_entries, 250);
    assert_eq!(round.book.len(), 1);
    assert_eq!(find_page(&round.pages.entries, 120), Some(0));
    assert_eq!(find_entry(&round.book[0], 120), Some(1));

    let mut pool = round.pool;
    pool.status = PoolStatus::Selected;
    pool.winning_entry = 120;
    pool.winning_page = 0;
    let mut ctx = Resolve { pool, page: round.book[0].clone() };
    assert_eq!(resolve(&mut ctx), Ok(()));
    assert_eq!(ctx.pool.winner, key(0xB));
    assert_eq!(ctx.pool.status, PoolStatus::Resolved);
}

#[test]
fn scenario_two_pages() {
    let mut round = Round::new();
    for _ in 0..100 {
        round.contribute(1, 5).unwrap();
    }
    round.contribute(0x10, 100).unwrap();
    round.contribute(0x11, 100).unwrap();
    round.contribute(0x12, 100).unwrap();
    assert_eq!(round.pages.entries, vec![500, 300]);
    assert_eq!(round.book[1].offset_entries, 500);
    assert_eq!(find_page(&round.pages.entries, 650), Some(1));

    let mut pool = round.pool;
    pool.status = PoolStatus::Selected;
    pool.winning_entry = 650;
    pool.winning_page = 1;
    let mut ctx = Resolve { pool, page: round.book[1].clone() };
    assert_eq!(resolve(&mut ctx), Ok(()));
    assert_eq!(ctx.pool.winner, key(0x11));
}

#[test]
fn full_round_through_close_select_resolve() {
    let mut round = Round::new();
    round.contribute(0xA, 100).unwrap();
    round.contribute(0xB, 50).unwrap();
    round.contribute(0xC, 100).unwrap();
    let oracle = key(0x77);

    let mut c = Close { pool: round.pool, randomness_account: oracle, randomness_account_data: randomness_data(999, 0, 119) };
    assert_eq!(close(&mut c, 1000), Ok(()));
    assert_eq!(c.pool.status, PoolStatus::Closing);
    assert_eq!(c.pool.close_slot, 999);
    assert_eq!(c.pool.randomness_account, oracle);

    let mut s = Select {
        pool: c.pool,
        pages: round.pages.clone(),
        randomness_account: oracle,
        randomness_account_data: randomness_data(999, 1003, 119),
    };
    assert_eq!(select(&mut s, 1003), Ok(()));
    assert_eq!(s.pool.status, PoolStatus::Selected);
    assert_eq!(s.pool.winning_entry, 120);
    assert_eq!(s.pool.winning_page, 0);

    let mut r = Resolve { pool: s.pool, page: round.book[0].clone() };
    assert_eq!(resolve(&mut r), Ok(()));
    assert_eq!(r.pool.winner, key(0xB));
}

#[test]
fn close_empty_round_settles() {
    let mut c = Close { pool: Pool::new(), randomness_account: key(3), randomness_account_data: vec![] };
    assert_eq!(close(&mut c, 50), Ok(()));
    assert_eq!(c.pool.status, PoolStatus::Settled);
    assert_eq!(c.pool.winner, Key { bytes: [0; 32] });
    let mut p = Payout {
        pool: c.pool,
        winner: c.pool.winner,
        fee: fee_account(),
        vault_lamports: 0,
        winner_lamports: 0,
        winner_rent_exemption: 0,
    };
    assert_eq!(payout(&mut p), Err(ErrorCode::PoolClosed));
}

#[test]
fn close_retry_waits_for_window() {
    let mut pool = Pool::new();
    pool.total_entries = 10;
    pool.status = PoolStatus::Closing;
    pool.close_slot = 500;
    let mut c = Close { pool, randomness_account: key(4), randomness_account_data: randomness_data(528, 0, 1) };
    assert_eq!(close(&mut c, 529), Err(ErrorCode::PoolClosed));
    assert_eq!(c.pool.close_slot, 500);
    c.randomness_account_data = randomness_data(529, 0, 1);
    assert_eq!(close(&mut c, 530), Ok(()));
    assert_eq!(c.pool.close_slot, 529);
    assert_eq!(c.pool.status, PoolStatus::Closing);
}

#[test]
fn close_randomness_errors() {
    let mut pool = Pool::new();
    pool.total_entries = 10;
    let mut c = Close { pool, randomness_account: key(4), randomness_account_data: randomness_data(98, 0, 1) };
    assert_eq!(close(&mut c, 100), Err(ErrorCode::RandomnessExpired));
    c.randomness_account_data = randomness_data(99, 100, 1);
    assert_eq!(close(&mut c, 100), Err(ErrorCode::RandomnessAlreadyRevealed));
    c.randomness_account_data = vec![1, 2, 3];
    assert_eq!(close(&mut c, 100), Err(ErrorCode::InvalidRandomnessAccount));
    assert_eq!(c.pool.status, PoolStatus::Open);
    c.pool.status = PoolStatus::Selected;
    assert_eq!(close(&mut c, 100), Err(ErrorCode::PoolClosed));
}

#[test]
fn select_randomness_errors() {
    let mut pool = Pool::new();
    pool.total_entries = 10;
    pool.status = PoolStatus::Closing;
    pool.close_slot = 99;
    pool.randomness_account = key(5);
    let pages = Pages { entries: vec![10] };
    let mut s = Select { pool, pages, randomness_account: key(6), randomness_account_data: randomness_data(99, 105, 3) };
    assert_eq!(select(&mut s, 105), Err(ErrorCode::InvalidRandomnessAccount));
    s.randomness_account = key(5);
    s.randomness_account_data = randomness_data(98, 105, 3);
    assert_eq!(select(&mut s, 105), Err(ErrorCode::RandomnessExpired));
    s.randomness_account_data = randomness_data(99, 104, 3);
    assert_eq!(select(&mut s, 105), Err(ErrorCode::RandomnessNotResolved));
    s.randomness_account_data = vec![0; 20];
    assert_eq!(select(&mut s, 105), Err(ErrorCode::InvalidRandomnessAccount));
    assert_eq!(s.pool.status, PoolStatus::Closing);
    s.randomness_account_data = randomness_data(99, 105, 3);
    assert_eq!(select(&mut s, 105), Ok(()));
    assert_eq!(s.pool.winning_entry, 4);
}

#[test]
fn resolve_needs_selected_and_a_match() {
    let mut pool = Pool::new();
    pool.status = PoolStatus::Selected;
    pool.winning_entry = 500;
    let page = Page { offset_entries: 0, entries: vec![PageEntry { user: key(1), amount: 10 }] };
    let mut r = Resolve { pool, page };
    assert_eq!(resolve(&mut r), Err(ErrorCode::Overflow));
    assert_eq!(r.pool.status, PoolStatus::Selected);
    r.pool.status = PoolStatus::Closing;
    assert_eq!(resolve(&mut r), Err(ErrorCode::PoolClosed));
}

#[test]
fn random_number_reads_low_bytes_little_endian() {
    let mut v = [0u8; 32];
    v[0] = 0x01;
    v[1] = 0x02;
    v[7] = 0x80;
    v[8] = 0xff;
    assert_eq!(random_number(&v), 0x8000_0000_0000_0201);
}

#[test]
fn payout_waterfall_amounts() {
    let p = payout_plan(1_000_000_000, 0, 890_880);
    assert_eq!((p.resolver_fee, p.service_fee, p.prize), (20_000_000, 9_800_000, 970_200_000));
    let p = payout_plan(25_000_000, 0, 890_880);
    assert_eq!((p.resolver_fee, p.service_fee, p.prize), (20_000_000, 50_000, 4_950_000));
    let p = payout_plan(20_500_000, 0, 890_880);
    assert_eq!((p.resolver_fee, p.service_fee, p.prize), (20_000_000, 500_000, 0));
    let p = payout_plan(20_500_000, 890_880, 890_880);
    assert_eq!((p.resolver_fee, p.service_fee, p.prize), (20_000_000, 5_000, 495_000));
    let p = payout_plan(10, 0, 0);
    assert_eq!((p.resolver_fee, p.service_fee, p.prize), (10, 0, 0));
    let p = payout_plan(u64::MAX, 0, 0);
    assert_eq!(p.resolver_fee + p.service_fee + p.prize, u64::MAX);
}

#[test]
fn payout_checks_accounts_and_settles() {
    let winner = key(9);
    let mut p = Payout {
        pool: resolved_pool(winner),
        winner: key(8),
        fee: fee_account(),
        vault_lamports: 1_000_000_000,
        winner_lamports: 0,
        winner_rent_exemption: 890_880,
    };
    assert_eq!(payout(&mut p), Err(ErrorCode::WrongWinnerAccount));
    p.winner = winner;
    p.fee = key(1);
    assert_eq!(payout(&mut p), Err(ErrorCode::WrongFeeAccount));
    assert_eq!(p.pool.status, PoolStatus::Resolved);
    p.fee = fee_account();
    let plan = payout(&mut p).unwrap();
    assert_eq!(plan.prize, 970_200_000);
    assert_eq!(p.pool.status, PoolStatus::Settled);
    assert_eq!(payout(&mut p), Err(ErrorCode::PoolClosed));
}
