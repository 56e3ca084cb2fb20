//! A small ledger runtime: a staking ledger that moves value between an
//! account's free and staked pools, and a governance registry that runs
//! proposals through one vote per account to a final outcome.

use vstd::prelude::*;

pub mod amount;
pub mod governance;
pub mod staking;
pub mod system;

verus! {

/// The configuration of the default deployment: accounts are named by a
/// `u64` and balances are counted in a `u64`.
pub struct Runtime;

impl system::SystemConfig for Runtime {
    type AccountId = u64;
}

impl staking::StakingConfig for Runtime {
    type Balance = u64;
}

impl governance::GovernanceConfig for Runtime {

}

} // verus!
