use vstd::prelude::*;
use crate::randomness::{parse_randomness, parsed_from, Randomness};
use crate::states::{ErrorCode, Key, Pool, PoolStatus, CLOSE_RETRY_SLOTS};

verus! {

/// What a close reads and writes: the round and the randomness account it
/// commits to, by identity and raw data.
#[derive(Clone, Debug)]
pub struct Close {
    pub pool: Pool,
    pub randomness_account: Key,
    pub randomness_account_data: Vec<u8>,
}

/// The round after a close in slot `slot`, given what the randomness account
/// parsed to, or the error it is rejected with.
pub open spec fn close_outcome(pool: Pool, account: Key, rnd: Option<Randomness>, slot: u64) -> Result<Pool, ErrorCode> {
    if pool.status != PoolStatus::Open && pool.status != PoolStatus::Closing {
        Err(ErrorCode::PoolClosed)
    } else if pool.total_entries == 0 {
        Ok(Pool { status: PoolStatus::Settled, ..pool })
    } else if pool.status == PoolStatus::Closing && slot < pool.close_slot + CLOSE_RETRY_SLOTS {
        Err(ErrorCode::PoolClosed)
    } else {
        match rnd {
            None => Err(ErrorCode::InvalidRandomnessAccount),
            Some(v) => if v.seed_slot + 1 != slot {
                Err(ErrorCode::RandomnessExpired)
            } else if v.reveal_slot == slot {
                Err(ErrorCode::RandomnessAlreadyRevealed)
            } else {
                Ok(Pool {
                    status: PoolStatus::Closing,
                    close_slot: v.seed_slot,
                    randomness_account: account,
                    ..pool
                })
            },
        }
    }
}

/// `new` and `r` are what a step with outcome `o` leaves: the new round on
/// success, the old one and the error otherwise.
pub open spec fn stepped(o: Result<Pool, ErrorCode>, old: Pool, new: Pool, r: Result<(), ErrorCode>) -> bool {
    match o {
        Ok(p) => r is Ok && new == p,
        Err(e) => r == Err::<(), ErrorCode>(e) && new == old,
    }
}

impl Pool {
    /// Closes the round in slot `slot` against the randomness account
    /// `account`, whose data parsed to `rnd`.
    pub fn close_with(&mut self, account: Key, rnd: Option<Randomness>, slot: u64) -> (r: Result<(), ErrorCode>)
        ensures
            stepped(close_outcome(*old(self), account, rnd, slot), *old(self), *final(self), r),
    {
        if self.status != PoolStatus::Open && self.status != PoolStatus::Closing {
            return Err(ErrorCode::PoolClosed);
        }
        if self.total_entries == 0 {
            self.status = PoolStatus::Settled;
            return Ok(());
        }
        if self.status == PoolStatus::Closing {
            if self.close_slot > u64::MAX - CLOSE_RETRY_SLOTS || slot < self.close_slot + CLOSE_RETRY_SLOTS {
                return Err(ErrorCode::PoolClosed);
            }
        }
        let v = match rnd {
            None => return Err(ErrorCode::InvalidRandomnessAccount),
            Some(v) => v,
        };
        if slot == 0 || v.seed_slot != slot - 1 {
            return Err(ErrorCode::RandomnessExpired);
        }
        if v.get_value(slot).is_some() {
            return Err(ErrorCode::RandomnessAlreadyRevealed);
        }
        self.status = PoolStatus::Closing;
        self.close_slot = v.seed_slot;
        self.randomness_account = account;
        Ok(())
    }
}

/// Closes the round in slot `slot`: an empty round is settled at once; else
/// the round commits to the randomness account, which must be seeded in the
/// preceding slot and not revealed yet, and records that seed slot as its
/// anchor. A retry waits until the retry window after the anchor has passed.
pub fn close(ctx: &mut Close, slot: u64) -> (r: Result<(), ErrorCode>)
    ensures
        final(ctx).randomness_account == old(ctx).randomness_account,
        final(ctx).randomness_account_data@ == old(ctx).randomness_account_data@,
        exists|rnd: Option<Randomness>|
            parsed_from(old(ctx).randomness_account_data@, rnd) && #[trigger] stepped(
                close_outcome(old(ctx).pool, old(ctx).randomness_account, rnd, slot),
                old(ctx).pool,
                final(ctx).pool,
                r,
            ),
{
    let rnd = parse_randomness(ctx.randomness_account_data.as_slice());
    let r = ctx.pool.close_with(ctx.randomness_account, rnd, slot);
    assert(parsed_from(old(ctx).randomness_account_data@, rnd));
    r
}

} // verus!
