use vstd::prelude::*;
use crate::states::{ErrorCode, Key, Pool, PoolStatus, RESOLVER_STATIC_FEE, SERVICE_FEE_BPS};

verus! {

/// What a payout reads and writes: the round, the accounts named as winner
/// and fee recipient, the pot held in the vault, and the winner's balance
/// together with the minimum balance its account must keep.
#[derive(Clone, Copy, Debug)]
pub struct Payout {
    pub pool: Pool,
    pub winner: Key,
    pub fee: Key,
    pub vault_lamports: u64,
    pub winner_lamports: u64,
    pub winner_rent_exemption: u64,
}

/// The three transfers out of the vault, in the order they are made. A zero
/// amount is a transfer that is skipped.
#[derive(Clone, Copy, Debug, PartialEq, Eq, Structural)]
pub struct PayoutPlan {
    /// To whoever triggers the payout.
    pub resolver_fee: u64,
    /// To the service's fee account.
    pub service_fee: u64,
    /// To the winner.
    pub prize: u64,
}

/// The service's fee account.
pub open spec fn fee_account_bytes() -> Seq<u8> {
    seq![6u8, 217, 93, 182, 201, 179, 30, 246, 184, 197, 222, 33, 57, 237, 85, 137, 116, 237, 5,
        10, 32, 14, 32, 243, 85, 50, 29, 128, 186, 203, 15, 65]
}

/// The identity of the service's fee account.
pub fn fee_account() -> (k: Key)
    ensures
        k.bytes@ == fee_account_bytes(),
{
    let k = Key {
        bytes: [6u8, 217, 93, 182, 201, 179, 30, 246, 184, 197, 222, 33, 57, 237, 85, 137, 116,
            237, 5, 10, 32, 14, 32, 243, 85, 50, 29, 128, 186, 203, 15, 65],
    };
    assert(k.bytes@ =~= fee_account_bytes());
    k
}

/// The waterfall over a pot of `pot`: a flat resolver fee, then the service
/// fee on what is left, then the rest to the winner. Where the rest would
/// not lift the winner's balance `held` to `floor`, the fee takes it all.
pub open spec fn plan_of(pot: u64, held: u64, floor: u64) -> PayoutPlan {
    let resolver = if pot < RESOLVER_STATIC_FEE { pot } else { RESOLVER_STATIC_FEE };
    let rest = pot - resolver;
    let fee_amount = rest * SERVICE_FEE_BPS / 10000;
    let needed = if floor > held { floor - held } else { 0 };
    let service = if rest < fee_amount + needed { rest } else { fee_amount };
    PayoutPlan {
        resolver_fee: resolver as u64,
        service_fee: service as u64,
        prize: (rest - service) as u64,
    }
}

/// Splits a pot of `pot` by the waterfall.
pub fn payout_plan(pot: u64, held: u64, floor: u64) -> (p: PayoutPlan)
    ensures
        p == plan_of(pot, held, floor),
        p.resolver_fee + p.service_fee + p.prize == pot,
{
    let resolver = if pot < RESOLVER_STATIC_FEE { pot } else { RESOLVER_STATIC_FEE };
    let rest = pot - resolver;
    let fee_amount = ((rest as u128) * (SERVICE_FEE_BPS as u128) / 10000) as u64;
    assert(fee_amount <= rest) by (nonlinear_arith)
        requires
            fee_amount == rest as int * 100 / 10000,
    ;
    let needed = if floor > held { floor - held } else { 0 };
    let service = if (rest as u128) < (fee_amount as u128) + (needed as u128) { rest } else { fee_amount };
    PayoutPlan { resolver_fee: resolver, service_fee: service, prize: rest - service }
}

/// The error a payout is rejected with, if any.
pub open spec fn payout_error(ctx: Payout) -> Option<ErrorCode> {
    if ctx.pool.status != PoolStatus::Resolved {
        Some(ErrorCode::PoolClosed)
    } else if ctx.winner.bytes@ != ctx.pool.winner.bytes@ {
        Some(ErrorCode::WrongWinnerAccount)
    } else if ctx.fee.bytes@ != fee_account_bytes() {
        Some(ErrorCode::WrongFeeAccount)
    } else {
        None
    }
}

/// Settles a resolved round and returns the transfers that distribute its
/// pot. Its status is Settled before any transfer is made.
pub fn payout(ctx: &mut Payout) -> (r: Result<PayoutPlan, ErrorCode>)
    ensures
        match payout_error(*old(ctx)) {
            Some(e) => r == Err::<PayoutPlan, ErrorCode>(e) && *final(ctx) == *old(ctx),
            None => r == Ok::<PayoutPlan, ErrorCode>(
                plan_of(old(ctx).vault_lamports, old(ctx).winner_lamports, old(ctx).winner_rent_exemption),
            ) && *final(ctx) == (Payout {
                pool: Pool { status: PoolStatus::Settled, ..old(ctx).pool },
                ..*old(ctx)
            }),
        },
{
    if ctx.pool.status != PoolStatus::Resolved {
        return Err(ErrorCode::PoolClosed);
    }
    if !ctx.winner.same(&ctx.pool.winner) {
        return Err(ErrorCode::WrongWinnerAccount);
    }
    if !ctx.fee.same(&fee_account()) {
        return Err(ErrorCode::WrongFeeAccount);
    }
    ctx.pool.status = PoolStatus::Settled;
    Ok(payout_plan(ctx.vault_lamports, ctx.winner_lamports, ctx.winner_rent_exemption))
}

} // verus!
