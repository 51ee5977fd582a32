//! A day-scoped pooled lottery: weighted entries are appended to paginated
//! ledgers, a revealed random value picks one weighted position, the position
//! is resolved to its depositor, and the pot is split by a fee waterfall.
mod states;
mod entry;
mod randomness;
mod close;
mod select;
mod resolve;
mod payout;
mod ledger;
mod space;

pub use states::{ErrorCode, Key, Page, PageEntry, Pages, Pool, PoolStatus, User};
pub use states::{sum_amounts, sum_u64, CLOSE_RETRY_SLOTS, PAGE_CAPACITY, RESOLVER_STATIC_FEE, SECONDS_PER_DAY, SERVICE_FEE_BPS};
pub use entry::{current_day, day_of, entered, entry, entry_error, slots_after, Entry};
pub use randomness::{le_u64, parsed_from, random_number, randomness_layout, randomness_tag, Randomness};
pub use close::{close, close_outcome, stepped, Close};
pub use select::{find_page, first_page, page_of, page_reaches, position_of, select, select_outcome, Select};
pub use resolve::{entry_reaches, find_entry, first_entry, resolve, resolve_outcome, Resolve};
pub use payout::{fee_account, fee_account_bytes, payout, payout_error, payout_plan, plan_of, Payout, PayoutPlan};
pub use ledger::{before, book_after, is_active_page, ledger, owns, page_sound, lemma_draw_finds_owner, lemma_payout_waterfall, lemma_entry_keeps_ledger, lemma_ledger_empty};
pub use space::{needs_creation, page_space, pages_space, rent_top_up, PAGES_BASE, PAGES_ENTRY, PAGE_BASE, PAGE_ENTRY, POOL_SIZE, USER_SIZE};
