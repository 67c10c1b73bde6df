use vstd::prelude::*;

use crate::state::Pool;

verus! {

/// The accounts of the fee update: the pool whose fee changes.
#[derive(Debug, Clone, Copy)]
pub struct UpdatePoolAccount {
    pub pool_account: Pool,
}

/// Sets the pool's swap fee to `fee_bps` basis points.
pub fn process_update(ctx: &mut UpdatePoolAccount, fee_bps: u16)
    ensures
        final(ctx).pool_account == (Pool { fee_bps, ..old(ctx).pool_account }),
{
    ctx.pool_account.fee_bps = fee_bps;
}

} // verus!
