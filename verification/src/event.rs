//! Domain events and their pure application to account state.
//!
//! Events are the only thing that moves balances. Each event kind has an
//! `apply` method: a pure function from the previous state to the next one,
//! returning `None` when the event cannot be applied (a defensive rejection
//! that protects replay from corrupting state). A balance sum that would
//! leave the `i64` range is a machine limit: the handler then also returns
//! `None` rather than wrap, so each `can_apply` condition carries the
//! business rule of its kind together with the no-overflow bounds.

use vstd::prelude::*;

use crate::state::{AccountState, ActiveAccountState, FrozenAccountState};

verus! {

/// A credit was applied: `available` and `total` grow by `amount`.
#[derive(Clone, Copy, Debug, PartialEq, Eq, Structural)]
pub struct Deposited {
    pub client_id: u16,
    pub tx_id: u32,
    pub amount: i64,
}

/// A debit was applied: `available` and `total` shrink by `amount`.
#[derive(Clone, Copy, Debug, PartialEq, Eq, Structural)]
pub struct Withdrawn {
    pub client_id: u16,
    pub tx_id: u32,
    pub amount: i64,
}

/// A past transaction was disputed: `amount` moves from `available` to
/// `held`; `total` is unchanged.
#[derive(Clone, Copy, Debug, PartialEq, Eq, Structural)]
pub struct Disputed {
    pub client_id: u16,
    pub tx_id: u32,
    pub amount: i64,
}

/// A dispute was settled in the client's favour: `amount` moves back from
/// `held` to `available`; `total` is unchanged.
#[derive(Clone, Copy, Debug, PartialEq, Eq, Structural)]
pub struct Resolved {
    pub client_id: u16,
    pub tx_id: u32,
    pub amount: i64,
}

/// A dispute ended in a chargeback: `held` and `total` shrink by `amount`
/// and the account freezes.
#[derive(Clone, Copy, Debug, PartialEq, Eq, Structural)]
pub struct Chargebacked {
    pub client_id: u16,
    pub tx_id: u32,
    pub amount: i64,
}

/// The tagged union over the five event kinds.
#[derive(Clone, Copy, Debug, PartialEq, Eq, Structural)]
pub enum TransactionTypeEvent {
    Deposited(Deposited),
    Withdrawn(Withdrawn),
    Disputed(Disputed),
    Resolved(Resolved),
    Chargebacked(Chargebacked),
}

/// Whether every sum a [`Deposited`] event forms stays within `i64`.
pub open spec fn deposit_fits(s: AccountState, amount: i64) -> bool {
    &&& i64::MIN <= s.available() + amount <= i64::MAX
    &&& i64::MIN <= s.total() + amount <= i64::MAX
}

impl Deposited {
    /// Whether this event can be applied to `s`: deposits are permitted on
    /// both active and frozen accounts, so only overflow is rejected.
    pub open spec fn can_apply(self, s: AccountState) -> bool {
        deposit_fits(s, self.amount)
    }

    /// The state after applying this event to `s`.
    pub open spec fn applied(self, s: AccountState, now: i64) -> AccountState {
        match s {
            AccountState::Active(a) => AccountState::Active(ActiveAccountState {
                available: (a.available + self.amount) as i64,
                held: a.held,
                total: (a.total + self.amount) as i64,
                last_activity: now,
            }),
            AccountState::Frozen(f) => AccountState::Frozen(FrozenAccountState {
                available: (f.available + self.amount) as i64,
                held: f.held,
                total: (f.total + self.amount) as i64,
                last_activity: now,
            }),
        }
    }

    /// Apply the deposit to `state`, stamping `now` as the last activity.
    pub fn apply(&self, state: &AccountState, now: i64) -> (r: Option<AccountState>)
        ensures
            r == if self.can_apply(*state) {
                Some(self.applied(*state, now))
            } else {
                None::<AccountState>
            },
    {
        match state {
            AccountState::Active(a) => {
                match (a.available.checked_add(self.amount), a.total.checked_add(self.amount)) {
                    (Some(available), Some(total)) => Some(AccountState::Active(
                        ActiveAccountState { available, held: a.held, total, last_activity: now },
                    )),
                    _ => None,
                }
            },
            AccountState::Frozen(f) => {
                match (f.available.checked_add(self.amount), f.total.checked_add(self.amount)) {
                    (Some(available), Some(total)) => Some(AccountState::Frozen(
                        FrozenAccountState { available, held: f.held, total, last_activity: now },
                    )),
                    _ => None,
                }
            },
        }
    }
}

impl Withdrawn {
    /// Whether this event can be applied to `s`: withdrawals are rejected on
    /// frozen accounts, and on overflow.
    pub open spec fn can_apply(self, s: AccountState) -> bool {
        &&& !s.is_frozen()
        &&& i64::MIN <= s.available() - self.amount <= i64::MAX
        &&& i64::MIN <= s.total() - self.amount <= i64::MAX
    }

    /// The state after applying this event to `s`.
    pub open spec fn applied(self, s: AccountState, now: i64) -> AccountState {
        match s {
            AccountState::Active(a) => AccountState::Active(ActiveAccountState {
                available: (a.available - self.amount) as i64,
                held: a.held,
                total: (a.total - self.amount) as i64,
                last_activity: now,
            }),
            AccountState::Frozen(f) => AccountState::Frozen(f),
        }
    }

    /// Apply the withdrawal to `state`, stamping `now` as the last activity.
    pub fn apply(&self, state: &AccountState, now: i64) -> (r: Option<AccountState>)
        ensures
            r == if self.can_apply(*state) {
                Some(self.applied(*state, now))
            } else {
                None::<AccountState>
            },
    {
        match state {
            AccountState::Active(a) => {
                match (a.available.checked_sub(self.amount), a.total.checked_sub(self.amount)) {
                    (Some(available), Some(total)) => Some(AccountState::Active(
                        ActiveAccountState { available, held: a.held, total, last_activity: now },
                    )),
                    _ => None,
                }
            },
            AccountState::Frozen(_) => None,
        }
    }
}

impl Disputed {
    /// Whether this event can be applied to `s`: disputes are permitted even
    /// on frozen accounts (consumer protection), so only overflow is
    /// rejected. The command layer vetted the disputed transaction.
    pub open spec fn can_apply(self, s: AccountState) -> bool {
        &&& i64::MIN <= s.available() - self.amount <= i64::MAX
        &&& i64::MIN <= s.held() + self.amount <= i64::MAX
    }

    /// The state after applying this event to `s`.
    pub open spec fn applied(self, s: AccountState, now: i64) -> AccountState {
        match s {
            AccountState::Active(a) => AccountState::Active(ActiveAccountState {
                available: (a.available - self.amount) as i64,
                held: (a.held + self.amount) as i64,
                total: a.total,
                last_activity: now,
            }),
            AccountState::Frozen(f) => AccountState::Frozen(FrozenAccountState {
                available: (f.available - self.amount) as i64,
                held: (f.held + self.amount) as i64,
                total: f.total,
                last_activity: now,
            }),
        }
    }

    /// Apply the dispute to `state`, stamping `now` as the last activity.
    pub fn apply(&self, state: &AccountState, now: i64) -> (r: Option<AccountState>)
        ensures
            r == if self.can_apply(*state) {
                Some(self.applied(*state, now))
            } else {
                None::<AccountState>
            },
    {
        match state {
            AccountState::Active(a) => {
                match (a.available.checked_sub(self.amount), a.held.checked_add(self.amount)) {
                    (Some(available), Some(held)) => Some(AccountState::Active(
                        ActiveAccountState { available, held, total: a.total, last_activity: now },
                    )),
                    _ => None,
                }
            },
            AccountState::Frozen(f) => {
                match (f.available.checked_sub(self.amount), f.held.checked_add(self.amount)) {
                    (Some(available), Some(held)) => Some(AccountState::Frozen(
                        FrozenAccountState { available, held, total: f.total, last_activity: now },
                    )),
                    _ => None,
                }
            },
        }
    }
}

impl Resolved {
    /// Whether this event can be applied to `s`: the held funds must cover
    /// the resolved amount, and the sums must not overflow.
    pub open spec fn can_apply(self, s: AccountState) -> bool {
        &&& s.held() >= self.amount
        &&& i64::MIN <= s.available() + self.amount <= i64::MAX
        &&& i64::MIN <= s.held() - self.amount <= i64::MAX
    }

    /// The state after applying this event to `s`.
    pub open spec fn applied(self, s: AccountState, now: i64) -> AccountState {
        match s {
            AccountState::Active(a) => AccountState::Active(ActiveAccountState {
                available: (a.available + self.amount) as i64,
                held: (a.held - self.amount) as i64,
                total: a.total,
                last_activity: now,
            }),
            AccountState::Frozen(f) => AccountState::Frozen(FrozenAccountState {
                available: (f.available + self.amount) as i64,
                held: (f.held - self.amount) as i64,
                total: f.total,
                last_activity: now,
            }),
        }
    }

    /// Apply the resolution to `state`, stamping `now` as the last activity.
    pub fn apply(&self, state: &AccountState, now: i64) -> (r: Option<AccountState>)
        ensures
            r == if self.can_apply(*state) {
                Some(self.applied(*state, now))
            } else {
                None::<AccountState>
            },
    {
        match state {
            AccountState::Active(a) => {
                if a.held < self.amount {
                    return None;
                }
                match (a.available.checked_add(self.amount), a.held.checked_sub(self.amount)) {
                    (Some(available), Some(held)) => Some(AccountState::Active(
                        ActiveAccountState { available, held, total: a.total, last_activity: now },
                    )),
                    _ => None,
                }
            },
            AccountState::Frozen(f) => {
                if f.held < self.amount {
                    return None;
                }
                match (f.available.checked_add(self.amount), f.held.checked_sub(self.amount)) {
                    (Some(available), Some(held)) => Some(AccountState::Frozen(
                        FrozenAccountState { available, held, total: f.total, last_activity: now },
                    )),
                    _ => None,
                }
            },
        }
    }
}

impl Chargebacked {
    /// Whether this event can be applied to `s`: the held funds must cover
    /// the charged-back amount, and the sums must not overflow.
    pub open spec fn can_apply(self, s: AccountState) -> bool {
        &&& s.held() >= self.amount
        &&& i64::MIN <= s.held() - self.amount <= i64::MAX
        &&& i64::MIN <= s.total() - self.amount <= i64::MAX
    }

    /// The state after applying this event to `s`: the result is always
    /// frozen.
    pub open spec fn applied(self, s: AccountState, now: i64) -> AccountState {
        match s {
            AccountState::Active(a) => AccountState::Frozen(FrozenAccountState {
                available: a.available,
                held: (a.held - self.amount) as i64,
                total: (a.total - self.amount) as i64,
                last_activity: now,
            }),
            AccountState::Frozen(f) => AccountState::Frozen(FrozenAccountState {
                available: f.available,
                held: (f.held - self.amount) as i64,
                total: (f.total - self.amount) as i64,
                last_activity: now,
            }),
        }
    }

    /// Apply the chargeback to `state`, stamping `now` as the last activity.
    pub fn apply(&self, state: &AccountState, now: i64) -> (r: Option<AccountState>)
        ensures
            r == if self.can_apply(*state) {
                Some(self.applied(*state, now))
            } else {
                None::<AccountState>
            },
    {
        match state {
            AccountState::Active(a) => {
                if a.held < self.amount {
                    return None;
                }
                match (a.held.checked_sub(self.amount), a.total.checked_sub(self.amount)) {
                    (Some(held), Some(total)) => Some(AccountState::Frozen(
                        FrozenAccountState { available: a.available, held, total, last_activity: now },
                    )),
                    _ => None,
                }
            },
            AccountState::Frozen(f) => {
                if f.held < self.amount {
                    return None;
                }
                match (f.held.checked_sub(self.amount), f.total.checked_sub(self.amount)) {
                    (Some(held), Some(total)) => Some(AccountState::Frozen(
                        FrozenAccountState { available: f.available, held, total, last_activity: now },
                    )),
                    _ => None,
                }
            },
        }
    }
}

impl TransactionTypeEvent {
    /// The client the event belongs to.
    pub open spec fn spec_client_id(self) -> u16 {
        match self {
            TransactionTypeEvent::Deposited(e) => e.client_id,
            TransactionTypeEvent::Withdrawn(e) => e.client_id,
            TransactionTypeEvent::Disputed(e) => e.client_id,
            TransactionTypeEvent::Resolved(e) => e.client_id,
            TransactionTypeEvent::Chargebacked(e) => e.client_id,
        }
    }

    /// The transaction the event belongs to.
    pub open spec fn spec_tx_id(self) -> u32 {
        match self {
            TransactionTypeEvent::Deposited(e) => e.tx_id,
            TransactionTypeEvent::Withdrawn(e) => e.tx_id,
            TransactionTypeEvent::Disputed(e) => e.tx_id,
            TransactionTypeEvent::Resolved(e) => e.tx_id,
            TransactionTypeEvent::Chargebacked(e) => e.tx_id,
        }
    }

    /// The amount the event carries.
    pub open spec fn spec_amount(self) -> i64 {
        match self {
            TransactionTypeEvent::Deposited(e) => e.amount,
            TransactionTypeEvent::Withdrawn(e) => e.amount,
            TransactionTypeEvent::Disputed(e) => e.amount,
            TransactionTypeEvent::Resolved(e) => e.amount,
            TransactionTypeEvent::Chargebacked(e) => e.amount,
        }
    }

    /// Whether the event can be applied to `s`, by the rules of its kind.
    pub open spec fn can_apply(self, s: AccountState) -> bool {
        match self {
            TransactionTypeEvent::Deposited(e) => e.can_apply(s),
            TransactionTypeEvent::Withdrawn(e) => e.can_apply(s),
            TransactionTypeEvent::Disputed(e) => e.can_apply(s),
            TransactionTypeEvent::Resolved(e) => e.can_apply(s),
            TransactionTypeEvent::Chargebacked(e) => e.can_apply(s),
        }
    }

    /// The state after applying the event to `s`.
    pub open spec fn applied(self, s: AccountState, now: i64) -> AccountState {
        match self {
            TransactionTypeEvent::Deposited(e) => e.applied(s, now),
            TransactionTypeEvent::Withdrawn(e) => e.applied(s, now),
            TransactionTypeEvent::Disputed(e) => e.applied(s, now),
            TransactionTypeEvent::Resolved(e) => e.applied(s, now),
            TransactionTypeEvent::Chargebacked(e) => e.applied(s, now),
        }
    }

    /// Apply the event to `state`, stamping `now` as the last activity.
    pub fn apply(&self, state: &AccountState, now: i64) -> (r: Option<AccountState>)
        ensures
            r == if self.can_apply(*state) {
                Some(self.applied(*state, now))
            } else {
                None::<AccountState>
            },
    {
        match self {
            TransactionTypeEvent::Deposited(e) => e.apply(state, now),
            TransactionTypeEvent::Withdrawn(e) => e.apply(state, now),
            TransactionTypeEvent::Disputed(e) => e.apply(state, now),
            TransactionTypeEvent::Resolved(e) => e.apply(state, now),
            TransactionTypeEvent::Chargebacked(e) => e.apply(state, now),
        }
    }

    /// The signed change an applied event makes to the total funds:
    /// deposits add their amount, withdrawals and chargebacks subtract it,
    /// disputes and resolutions leave the total unchanged.
    pub open spec fn total_delta(self) -> int {
        match self {
            TransactionTypeEvent::Deposited(e) => e.amount as int,
            TransactionTypeEvent::Withdrawn(e) => -(e.amount as int),
            TransactionTypeEvent::Disputed(_) => 0,
            TransactionTypeEvent::Resolved(_) => 0,
            TransactionTypeEvent::Chargebacked(e) => -(e.amount as int),
        }
    }
}

/// Applying any event to a well-formed state yields a well-formed state:
/// `total == available + held` is preserved by every event kind.
pub proof fn lemma_apply_preserves_wf(e: TransactionTypeEvent, s: AccountState, now: i64)
    requires
        s.wf(),
        e.can_apply(s),
    ensures
        e.applied(s, now).wf(),
{
}

/// Every event kind that can be applied changes the total funds by exactly
/// its signed delta, and leaves the other balances as its kind prescribes.
pub proof fn lemma_apply_total_delta(e: TransactionTypeEvent, s: AccountState, now: i64)
    requires
        s.wf(),
        e.can_apply(s),
    ensures
        e.applied(s, now).total() - s.total() == e.total_delta(),
{
}

/// Once frozen, an account never becomes active again: every event that can
/// be applied to a frozen state yields a frozen state.
pub proof fn lemma_frozen_is_terminal(e: TransactionTypeEvent, s: AccountState, now: i64)
    requires
        s.is_frozen(),
        e.can_apply(s),
    ensures
        e.applied(s, now).is_frozen(),
{
}

/// Balances stay non-negative across any applicable event whose amount is
/// positive, provided a disputed or withdrawn amount does not exceed the
/// available funds. (A dispute of a transaction whose amount exceeds the
/// funds still available is permitted by the rules and may drive
/// `available` negative; such inputs are excluded here.)
pub proof fn lemma_apply_non_negative(e: TransactionTypeEvent, s: AccountState, now: i64)
    requires
        s.wf(),
        s.available() >= 0,
        s.held() >= 0,
        e.spec_amount() >= 0,
        e.can_apply(s),
        e matches TransactionTypeEvent::Disputed(d) ==> s.available() >= d.amount,
        e matches TransactionTypeEvent::Withdrawn(w) ==> s.available() >= w.amount,
    ensures
        e.applied(s, now).available() >= 0,
        e.applied(s, now).held() >= 0,
{
}

/// Held funds never go negative: any applicable event with a positive
/// amount keeps `held` non-negative, with no assumption on `available`.
pub proof fn lemma_apply_held_non_negative(e: TransactionTypeEvent, s: AccountState, now: i64)
    requires
        s.held() >= 0,
        e.spec_amount() > 0,
        e.can_apply(s),
    ensures
        e.applied(s, now).held() >= 0,
{
}

/// A chargeback whose amount exceeds the held funds is rejected by the
/// event handler, whatever the command phase admitted.
pub proof fn lemma_chargeback_insufficient_held_rejected(c: Chargebacked, s: AccountState)
    requires
        s.held() < c.amount,
    ensures
        !c.can_apply(s),
        !TransactionTypeEvent::Chargebacked(c).can_apply(s),
{
}

} // verus!
