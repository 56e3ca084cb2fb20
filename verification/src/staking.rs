//! The staking ledger: per account a free and a staked pool, and the two
//! transfers that move value between them.

use crate::amount::Amount;
use crate::system::SystemConfig;
use std::collections::HashMap;
use vstd::prelude::*;

verus! {

/// Names the numeric type in which balances are counted.
pub trait StakingConfig: SystemConfig {
    /// The type of a balance.
    type Balance: Amount;
}

/// Why a transfer between the pools was refused.
#[derive(Clone, Copy, Debug, PartialEq, Eq, Structural)]
pub enum StakingError {
    /// The amount to stake is above the free balance.
    InsufficientBalance,
    /// The amount to unstake is above the staked balance.
    InsufficientStakedBalance,
    /// The pool that receives the amount would hold more than the balance
    /// type can count.
    Overflow,
}

impl StakingError {
    /// The text of the error.
    pub open spec fn text(self) -> Seq<char> {
        match self {
            StakingError::InsufficientBalance => "Insufficient balance"@,
            StakingError::InsufficientStakedBalance => "Insufficient staked balance"@,
            StakingError::Overflow => "Overflow"@,
        }
    }

    /// A short text that says what went wrong.
    pub fn message(&self) -> (message: &'static str)
        ensures
            message@ == self.text(),
    {
        match self {
            StakingError::InsufficientBalance => "Insufficient balance",
            StakingError::InsufficientStakedBalance => "Insufficient staked balance",
            StakingError::Overflow => "Overflow",
        }
    }
}

/// The balance that a pool holds for an account: the entry's amount, and zero
/// where the pool has no entry.
pub open spec fn balance_in<A>(pool: Map<A, nat>, who: A) -> nat {
    if pool.contains_key(who) {
        pool[who]
    } else {
        0
    }
}

/// The ledger as a pair of mathematical maps from account to amount.
#[verifier::reject_recursive_types(A)]
pub struct LedgerState<A> {
    /// The free pool.
    pub free: Map<A, nat>,
    /// The staked pool.
    pub staked: Map<A, nat>,
}

impl<A> LedgerState<A> {
    /// The ledger without any entry.
    pub open spec fn empty() -> Self {
        LedgerState { free: Map::empty(), staked: Map::empty() }
    }

    /// The free balance of an account.
    pub open spec fn free_of(self, who: A) -> nat {
        balance_in(self.free, who)
    }

    /// The staked balance of an account.
    pub open spec fn staked_of(self, who: A) -> nat {
        balance_in(self.staked, who)
    }

    /// All that an account holds, free and staked together.
    pub open spec fn total_of(self, who: A) -> nat {
        self.free_of(who) + self.staked_of(who)
    }

    /// The ledger after the free balance of `who` was set to `amount`.
    pub open spec fn with_free(self, who: A, amount: nat) -> Self {
        LedgerState { free: self.free.insert(who, amount), staked: self.staked }
    }

    /// How staking `amount` for `who` ends, where no pool may hold more than
    /// `max`.
    pub open spec fn stake_outcome(self, who: A, amount: nat, max: nat) -> Result<
        (),
        StakingError,
    > {
        if amount > self.free_of(who) {
            Err(StakingError::InsufficientBalance)
        } else if self.staked_of(who) + amount > max {
            Err(StakingError::Overflow)
        } else {
            Ok(())
        }
    }

    /// The ledger after `amount` moved from the free to the staked pool of
    /// `who`.
    pub open spec fn moved_to_staked(self, who: A, amount: nat) -> Self {
        LedgerState {
            free: self.free.insert(who, (self.free_of(who) - amount) as nat),
            staked: self.staked.insert(who, self.staked_of(who) + amount),
        }
    }

    /// The ledger after a call to stake `amount` for `who`: moved where the
    /// call succeeds, untouched where it is refused.
    pub open spec fn after_stake(self, who: A, amount: nat, max: nat) -> Self {
        if self.stake_outcome(who, amount, max) is Ok {
            self.moved_to_staked(who, amount)
        } else {
            self
        }
    }

    /// How unstaking `amount` for `who` ends, where no pool may hold more
    /// than `max`.
    pub open spec fn unstake_outcome(self, who: A, amount: nat, max: nat) -> Result<
        (),
        StakingError,
    > {
        if amount > self.staked_of(who) {
            Err(StakingError::InsufficientStakedBalance)
        } else if self.free_of(who) + amount > max {
            Err(StakingError::Overflow)
        } else {
            Ok(())
        }
    }

    /// The ledger after `amount` moved from the staked to the free pool of
    /// `who`.
    pub open spec fn moved_to_free(self, who: A, amount: nat) -> Self {
        LedgerState {
            free: self.free.insert(who, self.free_of(who) + amount),
            staked: self.staked.insert(who, (self.staked_of(who) - amount) as nat),
        }
    }

    /// The ledger after a call to unstake `amount` for `who`: moved where the
    /// call succeeds, untouched where it is refused.
    pub open spec fn after_unstake(self, who: A, amount: nat, max: nat) -> Self {
        if self.unstake_outcome(who, amount, max) is Ok {
            self.moved_to_free(who, amount)
        } else {
            self
        }
    }
}

/// The staking ledger of a runtime.
pub struct StakingPallet<T: StakingConfig> {
    /// The free balance of each account that has one.
    pub free_balances: HashMap<T::AccountId, T::Balance>,
    /// The staked balance of each account that has one.
    pub staked_balances: HashMap<T::AccountId, T::Balance>,
}

impl<T: StakingConfig> View for StakingPallet<T> {
    type V = LedgerState<T::AccountId>;

    open spec fn view(&self) -> LedgerState<T::AccountId> {
        LedgerState {
            free: self.free_balances@.map_values(|b: T::Balance| b.value()),
            staked: self.staked_balances@.map_values(|b: T::Balance| b.value()),
        }
    }
}

impl<T: StakingConfig> StakingPallet<T> {
    /// A ledger in which no account has an entry.
    pub fn new() -> (ledger: Self)
        ensures
            ledger@ == LedgerState::<T::AccountId>::empty(),
    {
        let ledger = Self { free_balances: HashMap::new(), staked_balances: HashMap::new() };
        assert(ledger@.free =~= Map::empty());
        assert(ledger@.staked =~= Map::empty());
        ledger
    }

    /// Sets the free balance of `who` to `amount`, whatever it was before.
    /// The staked balance is not touched.
    pub fn set_balance(&mut self, who: T::AccountId, amount: T::Balance)
        ensures
            final(self)@ == old(self)@.with_free(who, amount.value()),
    {
        proof {
            <T::AccountId as crate::system::AccountKey>::is_hash_key();
        }
        self.free_balances.insert(who, amount);
        assert(self@.free =~= old(self)@.free.insert(who, amount.value()));
    }

    /// The free balance of `who`: zero where the account has no entry.
    pub fn get_free_balance(&self, who: T::AccountId) -> (balance: T::Balance)
        ensures
            balance.value() == self@.free_of(who),
    {
        proof {
            <T::AccountId as crate::system::AccountKey>::is_hash_key();
        }
        match self.free_balances.get(&who) {
            Some(b) => *b,
            None => T::Balance::zero(),
        }
    }

    /// The staked balance of `who`: zero where the account has no entry.
    pub fn get_staked_balance(&self, who: T::AccountId) -> (balance: T::Balance)
        ensures
            balance.value() == self@.staked_of(who),
    {
        proof {
            <T::AccountId as crate::system::AccountKey>::is_hash_key();
        }
        match self.staked_balances.get(&who) {
            Some(b) => *b,
            None => T::Balance::zero(),
        }
    }

    /// Moves `amount` from the free to the staked pool of `who`.
    ///
    /// The call is refused with `InsufficientBalance` where `amount` is above
    /// the free balance, else with `Overflow` where the staked pool would
    /// hold more than the balance type can count. A refused call leaves the
    /// ledger as it was.
    pub fn stake(&mut self, who: T::AccountId, amount: T::Balance) -> (result: Result<
        (),
        StakingError,
    >)
        ensures
            result == old(self)@.stake_outcome(who, amount.value(), T::Balance::max_value()),
            final(self)@ == old(self)@.after_stake(who, amount.value(), T::Balance::max_value()),
            result is Ok ==> amount.value() <= old(self)@.free_of(who),
    {
        proof {
            <T::AccountId as crate::system::AccountKey>::is_hash_key();
        }
        let free_balance = self.get_free_balance(who);
        let staked_balance = self.get_staked_balance(who);
        let new_free = match free_balance.checked_sub(amount) {
            Some(b) => b,
            None => {
                return Err(StakingError::InsufficientBalance);
            },
        };
        let new_staked = match staked_balance.checked_add(amount) {
            Some(b) => b,
            None => {
                return Err(StakingError::Overflow);
            },
        };
        self.free_balances.insert(who, new_free);
        self.staked_balances.insert(who, new_staked);
        assert(self@.free =~= old(self)@.moved_to_staked(who, amount.value()).free);
        assert(self@.staked =~= old(self)@.moved_to_staked(who, amount.value()).staked);
        Ok(())
    }

    /// Moves `amount` from the staked to the free pool of `who`.
    ///
    /// The call is refused with `InsufficientStakedBalance` where `amount` is
    /// above the staked balance, else with `Overflow` where the free pool
    /// would hold more than the balance type can count. A refused call
    /// leaves the ledger as it was.
    pub fn unstake(&mut self, who: T::AccountId, amount: T::Balance) -> (result: Result<
        (),
        StakingError,
    >)
        ensures
            result == old(self)@.unstake_outcome(who, amount.value(), T::Balance::max_value()),
            final(self)@ == old(self)@.after_unstake(who, amount.value(), T::Balance::max_value()),
            result is Ok ==> amount.value() <= old(self)@.staked_of(who),
    {
        proof {
            <T::AccountId as crate::system::AccountKey>::is_hash_key();
        }
        let staked_balance = self.get_staked_balance(who);
        let free_balance = self.get_free_balance(who);
        let new_staked = match staked_balance.checked_sub(amount) {
            Some(b) => b,
            None => {
                return Err(StakingError::InsufficientStakedBalance);
            },
        };
        let new_free = match free_balance.checked_add(amount) {
            Some(b) => b,
            None => {
                return Err(StakingError::Overflow);
            },
        };
        self.staked_balances.insert(who, new_staked);
        self.free_balances.insert(who, new_free);
        assert(self@.free =~= old(self)@.moved_to_free(who, amount.value()).free);
        assert(self@.staked =~= old(self)@.moved_to_free(who, amount.value()).staked);
        Ok(())
    }
}

/// A call that moves value between the two pools of an account.
pub enum Transfer<A> {
    /// A call to stake `amount` for `who`.
    Stake { who: A, amount: nat },
    /// A call to unstake `amount` for `who`.
    Unstake { who: A, amount: nat },
}

impl<A> LedgerState<A> {
    /// The ledger after one transfer was called, where no pool may hold more
    /// than `max`.
    pub open spec fn after(self, call: Transfer<A>, max: nat) -> Self {
        match call {
            Transfer::Stake { who, amount } => self.after_stake(who, amount, max),
            Transfer::Unstake { who, amount } => self.after_unstake(who, amount, max),
        }
    }

    /// The ledger after the transfers of `calls` were called in order.
    pub open spec fn after_all(self, calls: Seq<Transfer<A>>, max: nat) -> Self
        decreases calls.len(),
    {
        if calls.len() == 0 {
            self
        } else {
            self.after_all(calls.drop_last(), max).after(calls.last(), max)
        }
    }
}

/// One transfer, counted or refused, leaves what each account holds in its
/// two pools together as it was.
pub proof fn lemma_transfer_conserves_totals<A>(
    state: LedgerState<A>,
    call: Transfer<A>,
    max: nat,
    account: A,
)
    ensures
        state.after(call, max).total_of(account) == state.total_of(account),
{
}

/// Conservation: whatever transfers are called and in whatever order, each
/// account holds in its two pools together what it held before. Staking and
/// unstaking make no value and lose none.
pub proof fn lemma_transfers_conserve_totals<A>(
    state: LedgerState<A>,
    calls: Seq<Transfer<A>>,
    max: nat,
    account: A,
)
    ensures
        state.after_all(calls, max).total_of(account) == state.total_of(account),
    decreases calls.len(),
{
    if calls.len() > 0 {
        lemma_transfers_conserve_totals(state, calls.drop_last(), max, account);
        lemma_transfer_conserves_totals(
            state.after_all(calls.drop_last(), max),
            calls.last(),
            max,
            account,
        );
    }
}

} // verus!
