//! Per-client account state: balances plus the frozen bit.

use vstd::prelude::*;

verus! {

/// Balances of an account that is in good standing.
///
/// All monetary fields count ten-thousandths of a currency unit, so four
/// fractional decimal digits are exact. `last_activity` is a timestamp in
/// milliseconds.
#[derive(Clone, Copy, Debug, PartialEq, Eq, Structural)]
pub struct ActiveAccountState {
    pub available: i64,
    pub held: i64,
    pub total: i64,
    pub last_activity: i64,
}

/// Balances of an account frozen by a chargeback.
///
/// The fields mirror [`ActiveAccountState`]; the two are kept separate
/// because the modes may diverge.
#[derive(Clone, Copy, Debug, PartialEq, Eq, Structural)]
pub struct FrozenAccountState {
    pub available: i64,
    pub held: i64,
    pub total: i64,
    pub last_activity: i64,
}

/// Account state: a tagged union over the two account modes.
///
/// Invariant (see [`AccountState::wf`]): `total == available + held`.
#[derive(Clone, Copy, Debug, PartialEq, Eq, Structural)]
pub enum AccountState {
    Active(ActiveAccountState),
    Frozen(FrozenAccountState),
}

impl AccountState {
    /// Funds the client may spend.
    pub open spec fn available(self) -> int {
        match self {
            AccountState::Active(a) => a.available as int,
            AccountState::Frozen(f) => f.available as int,
        }
    }

    /// Funds reserved against open disputes.
    pub open spec fn held(self) -> int {
        match self {
            AccountState::Active(a) => a.held as int,
            AccountState::Frozen(f) => f.held as int,
        }
    }

    /// Total funds, spendable or held.
    pub open spec fn total(self) -> int {
        match self {
            AccountState::Active(a) => a.total as int,
            AccountState::Frozen(f) => f.total as int,
        }
    }

    /// Whether the account has been frozen by a chargeback.
    pub open spec fn is_frozen(self) -> bool {
        match self {
            AccountState::Active(_) => false,
            AccountState::Frozen(_) => true,
        }
    }

    /// Timestamp of the last applied event, in milliseconds.
    pub open spec fn last_activity(self) -> int {
        match self {
            AccountState::Active(a) => a.last_activity as int,
            AccountState::Frozen(f) => f.last_activity as int,
        }
    }

    /// Well-formedness: the total is exactly the sum of the available and
    /// held funds.
    pub open spec fn wf(self) -> bool {
        self.total() == self.available() + self.held()
    }

    /// The state a client starts in: active with empty balances.
    pub fn initial(now: i64) -> (r: AccountState)
        ensures
            r == AccountState::initial_spec(now),
    {
        AccountState::Active(ActiveAccountState {
            available: 0,
            held: 0,
            total: 0,
            last_activity: now,
        })
    }

    /// The value [`AccountState::initial`] returns.
    pub open spec fn initial_spec(now: i64) -> AccountState {
        AccountState::Active(ActiveAccountState { available: 0, held: 0, total: 0, last_activity: now })
    }
}

} // verus!
