//! Accounts and per-client state.
//!
//! Each client has an `Account` that tracks spendable (`available`) funds,
//! funds under dispute (`held`), whether it is locked after a chargeback, and
//! the deposits and withdrawals it has seen, by transaction id.
//!
//! Rules:
//! - deposits and withdrawals are idempotent per transaction id: a replay is
//!   accepted and changes nothing;
//! - a withdrawal needs enough available funds;
//! - a dispute applies to a deposit only and moves its amount from available
//!   to held;
//! - a resolve moves a disputed amount back to available;
//! - a chargeback removes a disputed amount from held and locks the account;
//! - a locked account accepts nothing more.
//!
//! Every refused operation leaves the account as it was.

use std::collections::HashMap;

use vstd::prelude::*;

use crate::ledger::amount::{
    added, lemma_checked_add_value, lemma_parts_determine, lemma_checked_sub_value, holds_at_scale, lemma_difference_at_scale, lemma_sum_at_scale, lemma_zero_value, subtracted, Amount,
};
use crate::ledger::decimal::MAX_SCALE;
use crate::ledger::entry::{Entry, EntryType};

verus! {

broadcast use vstd::std_specs::hash::group_hash_axioms;

/// Client identifier.
pub type ClientId = u16;

/// All accounts hosted by a partition, by client.
pub type AccountsMap = HashMap<ClientId, Account>;

/// Why an account refuses an operation.
#[derive(Debug, Clone, Copy, PartialEq, Eq, Structural)]
pub enum AccountError {
    Locked,
    Insufficient,
    TxNotFound,
    AlreadyDisputed,
    NotDisputed,
    NotDisputable,
    MissingAmount,
}

/// The message of an account error.
pub open spec fn account_error_text(e: AccountError) -> Seq<char> {
    match e {
        AccountError::Locked => "account locked"@,
        AccountError::Insufficient => "insufficient funds"@,
        AccountError::TxNotFound => "tx not found"@,
        AccountError::AlreadyDisputed => "tx already disputed"@,
        AccountError::NotDisputed => "tx not disputed"@,
        AccountError::NotDisputable => "tx not disputable"@,
        AccountError::MissingAmount => "missing amount"@,
    }
}

impl AccountError {
    /// The error's message.
    pub fn to_string(&self) -> (r: String)
        ensures
            r@ == account_error_text(*self),
    {
        match self {
            AccountError::Locked => String::from_str("account locked"),
            AccountError::Insufficient => String::from_str("insufficient funds"),
            AccountError::TxNotFound => String::from_str("tx not found"),
            AccountError::AlreadyDisputed => String::from_str("tx already disputed"),
            AccountError::NotDisputed => String::from_str("tx not disputed"),
            AccountError::NotDisputable => String::from_str("tx not disputable"),
            AccountError::MissingAmount => String::from_str("missing amount"),
        }
    }
}

/// What an account keeps of a deposit or withdrawal: enough for idempotency
/// and for the dispute flow.
#[derive(Debug, Clone, Copy)]
pub struct TxInfo {
    pub kind: EntryType,
    pub amount: Amount,
    pub disputed: bool,
}

pub type AccountResult<T> = Result<T, AccountError>;

/// A single client's account.
#[derive(Debug)]
pub struct Account {
    available: Amount,
    held: Amount,
    is_locked: bool,
    txs: HashMap<u32, TxInfo>,
}

/// The state of an account.
pub struct AccountView {
    pub available: Amount,
    pub held: Amount,
    pub locked: bool,
    pub txs: Map<u32, TxInfo>,
}

impl View for Account {
    type V = AccountView;

    closed spec fn view(&self) -> AccountView {
        AccountView { available: self.available, held: self.held, locked: self.is_locked, txs: self.txs@ }
    }
}

impl AccountView {
    /// The state of a new account: no funds, unlocked, no transactions.
    pub open spec fn initial() -> AccountView {
        AccountView { available: Amount::zero_spec(), held: Amount::zero_spec(), locked: false, txs: Map::empty() }
    }

    /// Every amount the account holds is a valid decimal, and it records
    /// finitely many transactions.
    pub open spec fn wf(self) -> bool {
        &&& self.available.valid()
        &&& self.held.valid()
        &&& self.txs.dom().finite()
        &&& forall|tx: u32| #[trigger] self.txs.contains_key(tx) ==> self.txs[tx].amount.valid()
    }

    /// The transaction is recorded and under dispute.
    pub open spec fn is_disputed(self, tx: u32) -> bool {
        self.txs.contains_key(tx) && self.txs[tx].disputed
    }

    /// `post` and `r` are what a deposit of `e` makes of `self`.
    pub open spec fn deposit_step(self, e: Entry, post: AccountView, r: AccountResult<()>) -> bool {
        if self.locked {
            r == Err::<(), AccountError>(AccountError::Locked) && post == self
        } else if self.txs.contains_key(e.tx()) {
            r == Ok::<(), AccountError>(()) && post == self
        } else {
            match e.amount() {
                None => r == Err::<(), AccountError>(AccountError::MissingAmount) && post == self,
                Some(a) => {
                    &&& r == Ok::<(), AccountError>(())
                    &&& added(self.available, a, post.available)
                    &&& post.held == self.held
                    &&& post.locked == self.locked
                    &&& post.txs == self.txs.insert(
                        e.tx(),
                        TxInfo { kind: EntryType::Deposit, amount: a, disputed: false },
                    )
                },
            }
        }
    }

    /// `post` and `r` are what a withdrawal of `e` makes of `self`.
    pub open spec fn withdrawal_step(self, e: Entry, post: AccountView, r: AccountResult<()>) -> bool {
        if self.locked {
            r == Err::<(), AccountError>(AccountError::Locked) && post == self
        } else if self.txs.contains_key(e.tx()) {
            r == Ok::<(), AccountError>(()) && post == self
        } else {
            match e.amount() {
                None => r == Err::<(), AccountError>(AccountError::MissingAmount) && post == self,
                Some(a) => if self.available@ < a@ {
                    r == Err::<(), AccountError>(AccountError::Insufficient) && post == self
                } else {
                    &&& r == Ok::<(), AccountError>(())
                    &&& subtracted(self.available, a, post.available)
                    &&& post.held == self.held
                    &&& post.locked == self.locked
                    &&& post.txs == self.txs.insert(
                        e.tx(),
                        TxInfo { kind: EntryType::Withdrawal, amount: a, disputed: false },
                    )
                },
            }
        }
    }

    /// `post` and `r` are what a dispute of `e` makes of `self`.
    pub open spec fn dispute_step(self, e: Entry, post: AccountView, r: AccountResult<()>) -> bool {
        let tx = e.tx();
        if self.locked {
            r == Err::<(), AccountError>(AccountError::Locked) && post == self
        } else if !self.txs.contains_key(tx) {
            r == Err::<(), AccountError>(AccountError::TxNotFound) && post == self
        } else if self.txs[tx].kind != EntryType::Deposit {
            r == Err::<(), AccountError>(AccountError::NotDisputable) && post == self
        } else if self.txs[tx].disputed {
            r == Err::<(), AccountError>(AccountError::AlreadyDisputed) && post == self
        } else {
            let info = self.txs[tx];
            &&& r == Ok::<(), AccountError>(())
            &&& subtracted(self.available, info.amount, post.available)
            &&& added(self.held, info.amount, post.held)
            &&& post.locked == self.locked
            &&& post.txs == self.txs.insert(tx, TxInfo { disputed: true, ..info })
        }
    }

    /// `post` and `r` are what a resolve of `e` makes of `self`.
    pub open spec fn resolve_step(self, e: Entry, post: AccountView, r: AccountResult<()>) -> bool {
        let tx = e.tx();
        if self.locked {
            r == Err::<(), AccountError>(AccountError::Locked) && post == self
        } else if !self.txs.contains_key(tx) {
            r == Err::<(), AccountError>(AccountError::TxNotFound) && post == self
        } else if !self.txs[tx].disputed {
            r == Err::<(), AccountError>(AccountError::NotDisputed) && post == self
        } else {
            let info = self.txs[tx];
            &&& r == Ok::<(), AccountError>(())
            &&& subtracted(self.held, info.amount, post.held)
            &&& added(self.available, info.amount, post.available)
            &&& post.locked == self.locked
            &&& post.txs == self.txs.insert(tx, TxInfo { disputed: false, ..info })
        }
    }

    /// `post` and `r` are what a chargeback of `e` makes of `self`.
    pub open spec fn chargeback_step(self, e: Entry, post: AccountView, r: AccountResult<()>) -> bool {
        let tx = e.tx();
        if self.locked {
            r == Err::<(), AccountError>(AccountError::Locked) && post == self
        } else if !self.txs.contains_key(tx) {
            r == Err::<(), AccountError>(AccountError::TxNotFound) && post == self
        } else if !self.txs[tx].disputed {
            r == Err::<(), AccountError>(AccountError::NotDisputed) && post == self
        } else {
            &&& r == Ok::<(), AccountError>(())
            &&& subtracted(self.held, self.txs[tx].amount, post.held)
            &&& post.available == self.available
            &&& post.locked
            &&& post.txs == self.txs
        }
    }

    /// `post` and `r` are what the operation that `e`'s type calls for makes
    /// of `self`.
    pub open spec fn apply_step(self, e: Entry, post: AccountView, r: AccountResult<()>) -> bool {
        match e.kind() {
            EntryType::Deposit => self.deposit_step(e, post, r),
            EntryType::Withdrawal => self.withdrawal_step(e, post, r),
            EntryType::Dispute => self.dispute_step(e, post, r),
            EntryType::Resolve => self.resolve_step(e, post, r),
            EntryType::Chargeback => self.chargeback_step(e, post, r),
        }
    }

    /// A deposit of `e` would overflow the decimal arithmetic.
    pub open spec fn deposit_overflows(self, e: Entry) -> bool {
        &&& !self.locked
        &&& !self.txs.contains_key(e.tx())
        &&& e.amount() matches Some(a) && self.available.checked_add_spec(a) is None
    }

    /// A withdrawal of `e` would overflow the decimal arithmetic.
    pub open spec fn withdrawal_overflows(self, e: Entry) -> bool {
        &&& !self.locked
        &&& !self.txs.contains_key(e.tx())
        &&& e.amount() matches Some(a) && !(self.available@ < a@) && self.available.checked_sub_spec(a) is None
    }

    /// A dispute of `e` would overflow the decimal arithmetic.
    pub open spec fn dispute_overflows(self, e: Entry) -> bool {
        let tx = e.tx();
        &&& !self.locked
        &&& self.txs.contains_key(tx)
        &&& self.txs[tx].kind == EntryType::Deposit
        &&& !self.txs[tx].disputed
        &&& (self.available.checked_sub_spec(self.txs[tx].amount) is None
            || self.held.checked_add_spec(self.txs[tx].amount) is None)
    }

    /// A resolve of `e` would overflow the decimal arithmetic.
    pub open spec fn resolve_overflows(self, e: Entry) -> bool {
        let tx = e.tx();
        &&& !self.locked
        &&& self.is_disputed(tx)
        &&& (self.held.checked_sub_spec(self.txs[tx].amount) is None
            || self.available.checked_add_spec(self.txs[tx].amount) is None)
    }

    /// A chargeback of `e` would overflow the decimal arithmetic.
    pub open spec fn chargeback_overflows(self, e: Entry) -> bool {
        let tx = e.tx();
        &&& !self.locked
        &&& self.is_disputed(tx)
        &&& self.held.checked_sub_spec(self.txs[tx].amount) is None
    }

    /// The operation that the entry's type calls for would overflow the
    /// decimal arithmetic.
    pub open spec fn apply_overflows(self, e: Entry) -> bool {
        match e.kind() {
            EntryType::Deposit => self.deposit_overflows(e),
            EntryType::Withdrawal => self.withdrawal_overflows(e),
            EntryType::Dispute => self.dispute_overflows(e),
            EntryType::Resolve => self.resolve_overflows(e),
            EntryType::Chargeback => self.chargeback_overflows(e),
        }
    }
}

impl Default for Account {
    /// A new account: no funds, unlocked, no transactions.
    fn default() -> (r: Account)
        ensures
            r@ == AccountView::initial(),
            r@.wf(),
            r@.available.spec_mantissa() == 0 && r@.available.spec_scale() == 0,
            r@.held.spec_mantissa() == 0 && r@.held.spec_scale() == 0,
            r@.available@ == 0,
            r@.held@ == 0,
    {
        proof {
            lemma_zero_value();
        }
        Account { available: Amount::zero(), held: Amount::zero(), is_locked: false, txs: HashMap::new() }
    }
}

impl Account {
    /// Whether the account has been locked by a chargeback.
    pub fn is_locked(&self) -> (r: bool)
        ensures
            r == self@.locked,
    {
        self.is_locked
    }

    /// Spendable balance (excludes held funds).
    pub fn available(&self) -> (r: Amount)
        ensures
            r == self@.available,
            r.valid(),
    {
        proof {
            use_type_invariant(&self.available);
        }
        self.available
    }

    /// Funds currently under dispute.
    pub fn held(&self) -> (r: Amount)
        ensures
            r == self@.held,
            r.valid(),
    {
        proof {
            use_type_invariant(&self.held);
        }
        self.held
    }

    /// Total = available + held.
    pub fn total(&self) -> (r: Amount)
        requires
            self@.available.checked_add_spec(self@.held) is Some,
        ensures
            added(self@.available, self@.held, r),
    {
        self.available + self.held
    }

    /// Total = available + held, or `None` where the sum overflows.
    pub fn checked_total(&self) -> (r: Option<Amount>)
        ensures
            r == self@.available.checked_add_spec(self@.held),
            r matches Some(t) ==> added(self@.available, self@.held, t),
    {
        self.available.checked_add(self.held)
    }

    /// Whether applying `entry` with the operation its type calls for would
    /// overflow the decimal arithmetic.
    pub fn overflows(&self, entry: &Entry) -> (r: bool)
        ensures
            r == self@.apply_overflows(*entry),
    {
        let tx = entry.tx();
        if self.is_locked {
            return false;
        }
        match entry.kind() {
            EntryType::Deposit => {
                if self.txs.contains_key(&tx) {
                    return false;
                }
                match entry.amount() {
                    None => false,
                    Some(a) => self.available.checked_add(a).is_none(),
                }
            },
            EntryType::Withdrawal => {
                if self.txs.contains_key(&tx) {
                    return false;
                }
                match entry.amount() {
                    None => false,
                    Some(a) => !self.available.is_less_than(&a) && self.available.checked_sub(a).is_none(),
                }
            },
            EntryType::Dispute => match self.txs.get(&tx) {
                None => false,
                Some(info) => {
                    info.kind == EntryType::Deposit && !info.disputed && (self.available.checked_sub(
                        info.amount,
                    ).is_none() || self.held.checked_add(info.amount).is_none())
                },
            },
            EntryType::Resolve => match self.txs.get(&tx) {
                None => false,
                Some(info) => {
                    info.disputed && (self.held.checked_sub(info.amount).is_none()
                        || self.available.checked_add(info.amount).is_none())
                },
            },
            EntryType::Chargeback => match self.txs.get(&tx) {
                None => false,
                Some(info) => info.disputed && self.held.checked_sub(info.amount).is_none(),
            },
        }
    }

    /// Applies a deposit.
    ///
    /// Idempotent per transaction id; refused on a locked account.
    pub fn deposit(&mut self, entry: &Entry) -> (r: AccountResult<()>)
        requires
            !old(self)@.deposit_overflows(*entry),
        ensures
            old(self)@.deposit_step(*entry, final(self)@, r),
            old(self)@.wf() ==> final(self)@.wf(),
    {
        if self.is_locked {
            return Err(AccountError::Locked);
        }
        let tx = entry.tx();
        if self.txs.contains_key(&tx) {
            return Ok(());
        }
        let amount = match entry.amount() {
            Some(a) => a,
            None => {
                return Err(AccountError::MissingAmount);
            },
        };
        self.available = self.available + amount;
        proof {
            use_type_invariant(&amount);
        }
        self.txs.insert(tx, TxInfo { kind: EntryType::Deposit, amount, disputed: false });
        Ok(())
    }

    /// Applies a withdrawal.
    ///
    /// Idempotent per transaction id; needs enough available funds; refused on
    /// a locked account.
    pub fn withdrawal(&mut self, entry: &Entry) -> (r: AccountResult<()>)
        requires
            !old(self)@.withdrawal_overflows(*entry),
        ensures
            old(self)@.withdrawal_step(*entry, final(self)@, r),
            old(self)@.wf() ==> final(self)@.wf(),
    {
        if self.is_locked {
            return Err(AccountError::Locked);
        }
        let tx = entry.tx();
        if self.txs.contains_key(&tx) {
            return Ok(());
        }
        let amount = match entry.amount() {
            Some(a) => a,
            None => {
                return Err(AccountError::MissingAmount);
            },
        };
        if self.available.is_less_than(&amount) {
            return Err(AccountError::Insufficient);
        }
        self.available = self.available - amount;
        proof {
            use_type_invariant(&amount);
        }
        self.txs.insert(tx, TxInfo { kind: EntryType::Withdrawal, amount, disputed: false });
        Ok(())
    }

    /// Enters a dispute on a prior deposit: its amount moves from available
    /// to held, even where that takes available below zero.
    pub fn dispute(&mut self, entry: &Entry) -> (r: AccountResult<()>)
        requires
            !old(self)@.dispute_overflows(*entry),
        ensures
            old(self)@.dispute_step(*entry, final(self)@, r),
            old(self)@.wf() ==> final(self)@.wf(),
    {
        if self.is_locked {
            return Err(AccountError::Locked);
        }
        let tx = entry.tx();
        let info = match self.txs.get(&tx) {
            Some(i) => *i,
            None => {
                return Err(AccountError::TxNotFound);
            },
        };
        if info.kind != EntryType::Deposit {
            return Err(AccountError::NotDisputable);
        }
        if info.disputed {
            return Err(AccountError::AlreadyDisputed);
        }
        self.available = self.available - info.amount;
        self.held = self.held + info.amount;
        self.txs.insert(tx, TxInfo { disputed: true, ..info });
        Ok(())
    }

    /// Resolves a dispute: the held amount goes back to available.
    pub fn resolve(&mut self, entry: &Entry) -> (r: AccountResult<()>)
        requires
            !old(self)@.resolve_overflows(*entry),
        ensures
            old(self)@.resolve_step(*entry, final(self)@, r),
            old(self)@.wf() ==> final(self)@.wf(),
    {
        if self.is_locked {
            return Err(AccountError::Locked);
        }
        let tx = entry.tx();
        let info = match self.txs.get(&tx) {
            Some(i) => *i,
            None => {
                return Err(AccountError::TxNotFound);
            },
        };
        if !info.disputed {
            return Err(AccountError::NotDisputed);
        }
        self.held = self.held - info.amount;
        self.available = self.available + info.amount;
        self.txs.insert(tx, TxInfo { disputed: false, ..info });
        Ok(())
    }

    /// Charges back a disputed transaction: the held amount is removed for
    /// good and the account is locked.
    pub fn chargeback(&mut self, entry: &Entry) -> (r: AccountResult<()>)
        requires
            !old(self)@.chargeback_overflows(*entry),
        ensures
            old(self)@.chargeback_step(*entry, final(self)@, r),
            old(self)@.wf() ==> final(self)@.wf(),
    {
        if self.is_locked {
            return Err(AccountError::Locked);
        }
        let tx = entry.tx();
        let info = match self.txs.get(&tx) {
            Some(i) => *i,
            None => {
                return Err(AccountError::TxNotFound);
            },
        };
        if !info.disputed {
            return Err(AccountError::NotDisputed);
        }
        self.held = self.held - info.amount;
        self.is_locked = true;
        Ok(())
    }
}

/// Replaying a deposit that was accepted changes nothing and is accepted
/// again.
pub proof fn law_deposit_replay_is_ignored(
    a0: AccountView,
    e: Entry,
    a1: AccountView,
    a2: AccountView,
    r2: AccountResult<()>,
)
    requires
        a0.deposit_step(e, a1, Ok(())),
        a1.deposit_step(e, a2, r2),
    ensures
        a2 == a1,
        r2 == Ok::<(), AccountError>(()),
{
}

/// Replaying a withdrawal that was accepted changes nothing and is accepted
/// again.
pub proof fn law_withdrawal_replay_is_ignored(
    a0: AccountView,
    e: Entry,
    a1: AccountView,
    a2: AccountView,
    r2: AccountResult<()>,
)
    requires
        a0.withdrawal_step(e, a1, Ok(())),
        a1.withdrawal_step(e, a2, r2),
    ensures
        a2 == a1,
        r2 == Ok::<(), AccountError>(()),
{
}

/// After a chargeback has been accepted, the account refuses every further
/// operation with `Locked` and stays as it is.
pub proof fn law_chargeback_locks_account(
    a0: AccountView,
    e: Entry,
    a1: AccountView,
    next: Entry,
    a2: AccountView,
    r2: AccountResult<()>,
)
    requires
        a0.chargeback_step(e, a1, Ok(())),
        a1.apply_step(next, a2, r2),
    ensures
        a1.locked,
        r2 == Err::<(), AccountError>(AccountError::Locked),
        a2 == a1,
{
}

/// A refused operation leaves the account as it was.
pub proof fn law_refused_operation_changes_nothing(
    a0: AccountView,
    e: Entry,
    a1: AccountView,
    r: AccountResult<()>,
)
    requires
        a0.apply_step(e, a1, r),
        r is Err,
    ensures
        a1 == a0,
{
}

/// A dispute followed by a resolve of the same deposit gives back the
/// balances, the transaction records and the lock state the account had,
/// wherever no step drops a digit; the deposit can then be disputed again.
pub proof fn law_dispute_then_resolve_restores(
    a0: AccountView,
    d: Entry,
    a1: AccountView,
    s: Entry,
    a2: AccountView,
)
    requires
        d.tx() == s.tx(),
        a0.dispute_step(d, a1, Ok(())),
        a1.resolve_step(s, a2, Ok(())),
        a0.available.subtracts_exactly(a0.txs[d.tx()].amount),
        a0.held.adds_exactly(a0.txs[d.tx()].amount),
        a1.held.subtracts_exactly(a0.txs[d.tx()].amount),
        a1.available.adds_exactly(a0.txs[d.tx()].amount),
    ensures
        a2.available@ == a0.available@,
        a2.held@ == a0.held@,
        a2.locked == a0.locked,
        a2.txs == a0.txs,
        forall|post: AccountView, r: AccountResult<()>| #[trigger] a2.dispute_step(d, post, r) ==> r is Ok,
{
    assert(a2.txs =~= a0.txs);
}

/// A dispute or a resolve moves funds between available and held and keeps
/// the total, wherever no step drops a digit.
pub proof fn law_dispute_and_resolve_keep_total(a0: AccountView, e: Entry, a1: AccountView)
    requires
        e.kind() == EntryType::Dispute || e.kind() == EntryType::Resolve,
        a0.apply_step(e, a1, Ok(())),
        a0.step_keeps_values(e),
    ensures
        a1.available@ + a1.held@ == a0.available@ + a0.held@,
{
}

/// An accepted deposit of a new transaction adds its amount to the total; an
/// accepted withdrawal of a new transaction takes its amount from it; an
/// accepted chargeback takes the disputed amount from it. Wherever no step
/// drops a digit.
pub proof fn law_funds_movements_change_total(a0: AccountView, e: Entry, a1: AccountView)
    requires
        a0.apply_step(e, a1, Ok(())),
        !a0.txs.contains_key(e.tx()) || e.kind() == EntryType::Chargeback,
        e.kind() == EntryType::Deposit || e.kind() == EntryType::Withdrawal || e.kind()
            == EntryType::Chargeback,
        a0.step_keeps_values(e),
    ensures
        e.kind() == EntryType::Deposit ==> a1.available@ + a1.held@ == a0.available@ + a0.held@
            + e.amount().unwrap()@,
        e.kind() == EntryType::Withdrawal ==> a1.available@ + a1.held@ == a0.available@ + a0.held@
            - e.amount().unwrap()@,
        e.kind() == EntryType::Chargeback ==> a1.available@ + a1.held@ == a0.available@ + a0.held@
            - a0.txs[e.tx()].amount@ && a1.locked,
{
}

/// An accepted withdrawal of a new transaction never takes available funds
/// below zero.
pub proof fn law_withdrawal_never_overdraws(a0: AccountView, e: Entry, a1: AccountView)
    requires
        a0.withdrawal_step(e, a1, Ok(())),
        !a0.txs.contains_key(e.tx()),
    ensures
        a1.available@ >= 0,
{
}

/// An entry that passed validation never meets `MissingAmount`: a deposit or
/// withdrawal always carries its amount.
pub proof fn law_validated_entries_carry_their_amount(
    a0: AccountView,
    e: Entry,
    a1: AccountView,
    r: AccountResult<()>,
)
    requires
        e.well_formed(),
        a0.apply_step(e, a1, r),
    ensures
        r != Err::<(), AccountError>(AccountError::MissingAmount),
{
}

/// What a recorded transaction counts for: with `disputed_only`, its amount
/// if it is under dispute and nothing otherwise; without, its amount, counted
/// in for a deposit and out for a withdrawal.
pub open spec fn tx_weight(disputed_only: bool, info: TxInfo) -> int {
    if disputed_only {
        if info.disputed {
            info.amount@
        } else {
            0
        }
    } else if info.kind == EntryType::Deposit {
        info.amount@
    } else {
        -info.amount@
    }
}

/// The sum of `tx_weight` over the recorded transactions.
pub open spec fn tx_sum(txs: Map<u32, TxInfo>, disputed_only: bool) -> int
    decreases txs.dom().len(),
    when txs.dom().finite()
{
    if txs.dom().len() == 0 {
        0
    } else {
        let k = txs.dom().choose();
        tx_weight(disputed_only, txs[k]) + tx_sum(txs.remove(k), disputed_only)
    }
}

proof fn lemma_tx_sum_remove(txs: Map<u32, TxInfo>, disputed_only: bool, k: u32)
    requires
        txs.dom().finite(),
        txs.dom().contains(k),
    ensures
        tx_sum(txs, disputed_only) == tx_weight(disputed_only, txs[k]) + tx_sum(txs.remove(k), disputed_only),
    decreases txs.dom().len(),
{
    let c = txs.dom().choose();
    assert(txs.dom().len() != 0);
    if c != k {
        assert(txs.remove(c).dom() =~= txs.dom().remove(c));
        assert(txs.remove(k).dom() =~= txs.dom().remove(k));
        lemma_tx_sum_remove(txs.remove(c), disputed_only, k);
        lemma_tx_sum_remove(txs.remove(k), disputed_only, c);
        assert(txs.remove(c).remove(k) =~= txs.remove(k).remove(c));
    }
}

proof fn lemma_tx_sum_insert(txs: Map<u32, TxInfo>, disputed_only: bool, k: u32, v: TxInfo)
    requires
        txs.dom().finite(),
    ensures
        tx_sum(txs.insert(k, v), disputed_only) == tx_weight(disputed_only, v) + tx_sum(txs, disputed_only) - if txs.dom().contains(k) {
            tx_weight(disputed_only, txs[k])
        } else {
            0
        },
{
    let m = txs.insert(k, v);
    lemma_tx_sum_remove(m, disputed_only, k);
    if txs.dom().contains(k) {
        lemma_tx_sum_remove(txs, disputed_only, k);
        assert(m.remove(k) =~= txs.remove(k));
    } else {
        assert(m.remove(k) =~= txs);
    }
}

impl AccountView {
    /// The balances follow from the recorded transactions. While the account
    /// is unlocked, held funds are the sum of the disputed deposits, and
    /// available plus held funds are the deposits less the withdrawals. Once
    /// it is locked, one disputed deposit has been charged back, and both sums
    /// are less its amount.
    pub open spec fn balanced(self) -> bool {
        &&& self.txs.dom().finite()
        &&& !self.locked ==> {
            &&& self.held@ == tx_sum(self.txs, true)
            &&& self.available@ + self.held@ == tx_sum(self.txs, false)
        }
        &&& self.locked ==> exists|tx: u32| #[trigger] self.balanced_after_chargeback_of(tx)
    }

    /// The balances are those that charging back the disputed deposit `tx`
    /// leaves: held funds are the disputed deposits less it, and available
    /// plus held funds are the deposits less the withdrawals less it.
    pub open spec fn balanced_after_chargeback_of(self, tx: u32) -> bool {
        &&& self.is_disputed(tx)
        &&& self.held@ == tx_sum(self.txs, true) - self.txs[tx].amount@
        &&& self.available@ + self.held@ == tx_sum(self.txs, false) - self.txs[tx].amount@
    }

    /// Every amount of the account has at most `s` decimal places: the
    /// balances and those of the recorded transactions.
    pub open spec fn scales_at_most(self, s: nat) -> bool {
        &&& self.available.spec_scale() <= s
        &&& self.held.spec_scale() <= s
        &&& forall|tx: u32| #[trigger] self.txs.contains_key(tx) ==> self.txs[tx].amount.spec_scale() <= s
    }

    /// The exact balances that the operation `e`'s type calls for computes
    /// can be held by decimals with `s` decimal places.
    pub open spec fn results_hold_at_scale(self, e: Entry, s: nat) -> bool {
        let tx = e.tx();
        let (available, held) = (self.available@, self.held@);
        match e.kind() {
            EntryType::Deposit => e.amount() matches Some(a) ==> holds_at_scale(available + a@, s),
            EntryType::Withdrawal => e.amount() matches Some(a) ==> holds_at_scale(available - a@, s),
            EntryType::Dispute => self.txs.contains_key(tx) ==> holds_at_scale(available - self.txs[tx].amount@, s)
                && holds_at_scale(held + self.txs[tx].amount@, s),
            EntryType::Resolve => self.txs.contains_key(tx) ==> holds_at_scale(held - self.txs[tx].amount@, s)
                && holds_at_scale(available + self.txs[tx].amount@, s),
            EntryType::Chargeback => self.txs.contains_key(tx) ==> holds_at_scale(held - self.txs[tx].amount@, s),
        }
    }

    /// Every balance that the operation `e`'s type computes, where the
    /// operation is carried out, is worth exactly what the values give: no
    /// digit is dropped, whether or not a decimal changes scale.
    pub open spec fn step_keeps_values(self, e: Entry) -> bool {
        let tx = e.tx();
        let info = self.txs[tx];
        !self.locked ==> match e.kind() {
            EntryType::Deposit => (!self.txs.contains_key(tx) && e.amount() is Some) ==> self.available.adds_exactly(
                e.amount().unwrap(),
            ),
            EntryType::Withdrawal => (!self.txs.contains_key(tx) && e.amount() is Some && !(self.available@
                < e.amount().unwrap()@)) ==> self.available.subtracts_exactly(e.amount().unwrap()),
            EntryType::Dispute => (self.txs.contains_key(tx) && info.kind == EntryType::Deposit && !info.disputed)
                ==> self.available.subtracts_exactly(info.amount) && self.held.adds_exactly(info.amount),
            EntryType::Resolve => self.is_disputed(tx) ==> self.held.subtracts_exactly(info.amount)
                && self.available.adds_exactly(info.amount),
            EntryType::Chargeback => self.is_disputed(tx) ==> self.held.subtracts_exactly(info.amount),
        }
    }

    /// Every recorded transaction is of an amount not below zero.
    pub open spec fn amounts_nonnegative(self) -> bool {
        forall|tx: u32| #[trigger] self.txs.contains_key(tx) ==> self.txs[tx].amount@ >= 0
    }

    /// The arithmetic of the operation that `e`'s type calls for drops no
    /// digit: an operand is zero, or the exact result fits at the common
    /// scale.
    pub open spec fn step_is_exact(self, e: Entry) -> bool {
        let tx = e.tx();
        match e.kind() {
            EntryType::Deposit => e.amount() matches Some(a) ==> self.available.sum_is_exact(a),
            EntryType::Withdrawal => e.amount() matches Some(a) ==> self.available.difference_is_exact(a),
            EntryType::Dispute => self.txs.contains_key(tx) ==> self.available.difference_is_exact(self.txs[tx].amount)
                && self.held.sum_is_exact(self.txs[tx].amount),
            EntryType::Resolve => self.txs.contains_key(tx) ==> self.held.difference_is_exact(self.txs[tx].amount)
                && self.available.sum_is_exact(self.txs[tx].amount),
            EntryType::Chargeback => self.txs.contains_key(tx) ==> self.held.difference_is_exact(self.txs[tx].amount),
        }
    }
}

/// A new account has no funds, is unlocked and has recorded no transaction,
/// so its first deposit of a new transaction is accepted.
pub proof fn law_new_account_starts_empty(e: Entry, a1: AccountView, r: AccountResult<()>)
    requires
        AccountView::initial().deposit_step(e, a1, r),
        e.amount() is Some,
    ensures
        AccountView::initial().available@ == 0,
        AccountView::initial().held@ == 0,
        !AccountView::initial().locked,
        AccountView::initial().txs.dom() == Set::<u32>::empty(),
        AccountView::initial().wf(),
        r is Ok,
        a1.available == e.amount().unwrap(),
{
    lemma_zero_value();
    lemma_parts_determine(e.amount().unwrap());
    assert(AccountView::initial().txs.dom() =~= Set::<u32>::empty());
}

/// A new account is balanced: no funds and no transactions.
pub proof fn law_new_account_is_balanced()
    ensures
        AccountView::initial().balanced(),
{
    lemma_zero_value();
    let txs = Map::<u32, TxInfo>::empty();
    assert(txs.dom() =~= Set::<u32>::empty());
    assert(tx_sum(txs, true) == 0);
    assert(tx_sum(txs, false) == 0);
}

/// Every operation keeps an account balanced: held funds stay the sum of the
/// disputed deposits, and the total stays the deposits less the withdrawals
/// less what was charged back, wherever no step drops a digit.
pub proof fn law_operations_keep_balances(a0: AccountView, e: Entry, a1: AccountView, r: AccountResult<()>)
    requires
        a0.balanced(),
        a0.apply_step(e, a1, r),
        a0.step_keeps_values(e),
    ensures
        a1.balanced(),
{
    let tx = e.tx();
    if a1 != a0 && !a0.locked {
        match e.kind() {
            EntryType::Deposit => {
                let a = e.amount().unwrap();
                lemma_tx_sum_insert(a0.txs, true, tx, TxInfo { kind: EntryType::Deposit, amount: a, disputed: false });
                lemma_tx_sum_insert(a0.txs, false, tx, TxInfo { kind: EntryType::Deposit, amount: a, disputed: false });
            },
            EntryType::Withdrawal => {
                let a = e.amount().unwrap();
                lemma_tx_sum_insert(a0.txs, true, tx, TxInfo { kind: EntryType::Withdrawal, amount: a, disputed: false });
                lemma_tx_sum_insert(a0.txs, false, tx, TxInfo { kind: EntryType::Withdrawal, amount: a, disputed: false });
            },
            EntryType::Dispute => {
                let info = a0.txs[tx];
                lemma_tx_sum_insert(a0.txs, true, tx, TxInfo { disputed: true, ..info });
                lemma_tx_sum_insert(a0.txs, false, tx, TxInfo { disputed: true, ..info });
            },
            EntryType::Resolve => {
                let info = a0.txs[tx];
                lemma_tx_sum_insert(a0.txs, true, tx, TxInfo { disputed: false, ..info });
                lemma_tx_sum_insert(a0.txs, false, tx, TxInfo { disputed: false, ..info });
            },
            EntryType::Chargeback => {
                assert(a1.balanced_after_chargeback_of(tx));
            },
        }
    }
}

/// An operation on an account whose amounts have at most `s` decimal places,
/// with an amount of at most `s` places, drops no digit wherever the exact
/// balances it computes can be held at `s` places; afterwards the account's
/// amounts still have at most `s` places.
pub proof fn law_step_at_scale(a0: AccountView, e: Entry, a1: AccountView, r: AccountResult<()>, s: nat)
    requires
        s <= MAX_SCALE,
        a0.wf(),
        a0.scales_at_most(s),
        e.amount() matches Some(a) ==> a.valid() && a.spec_scale() <= s,
        a0.apply_step(e, a1, r),
        a0.results_hold_at_scale(e, s),
    ensures
        a0.step_is_exact(e),
        a1.wf(),
        a1.scales_at_most(s),
{
    let tx = e.tx();
    match e.kind() {
        EntryType::Deposit => {
            if let Some(a) = e.amount() {
                lemma_sum_at_scale(a0.available, a, s);
            }
        },
        EntryType::Withdrawal => {
            if let Some(a) = e.amount() {
                lemma_difference_at_scale(a0.available, a, s);
            }
        },
        EntryType::Dispute => {
            if a0.txs.contains_key(tx) {
                lemma_difference_at_scale(a0.available, a0.txs[tx].amount, s);
                lemma_sum_at_scale(a0.held, a0.txs[tx].amount, s);
            }
        },
        EntryType::Resolve => {
            if a0.txs.contains_key(tx) {
                lemma_difference_at_scale(a0.held, a0.txs[tx].amount, s);
                lemma_sum_at_scale(a0.available, a0.txs[tx].amount, s);
            }
        },
        EntryType::Chargeback => {
            if a0.txs.contains_key(tx) {
                lemma_difference_at_scale(a0.held, a0.txs[tx].amount, s);
            }
        },
    }
}

/// A run of operations on amounts of at most `s` decimal places, from a
/// balanced account whose amounts have at most `s` places, keeps the account
/// balanced at every step wherever the exact balances of each step can be
/// held at `s` places: no step drops a digit, and the balances stay exactly
/// what the recorded transactions add up to.
pub proof fn law_run_at_scale_stays_balanced(
    states: Seq<AccountView>,
    entries: Seq<Entry>,
    results: Seq<AccountResult<()>>,
    s: nat,
)
    requires
        s <= MAX_SCALE,
        states.len() == entries.len() + 1,
        results.len() == entries.len(),
        states[0].wf(),
        states[0].balanced(),
        states[0].scales_at_most(s),
        forall|i: int|
            0 <= i < entries.len() ==> states[i].apply_step(#[trigger] entries[i], states[i + 1], results[i]),
        forall|i: int|
            0 <= i < entries.len() ==> (#[trigger] entries[i].amount() matches Some(a) ==> a.valid() && a.spec_scale()
                <= s),
        forall|i: int| 0 <= i < entries.len() ==> states[i].results_hold_at_scale(#[trigger] entries[i], s),
    ensures
        forall|i: int| 0 <= i < entries.len() ==> states[i].step_is_exact(#[trigger] entries[i]),
        forall|i: int|
            0 <= i < states.len() ==> #[trigger] states[i].balanced() && states[i].wf() && states[i].scales_at_most(s),
    decreases entries.len(),
{
    let n = entries.len() as int;
    if n > 0 {
        let (ps, pe, pr) = (states.drop_last(), entries.drop_last(), results.drop_last());
        assert forall|i: int| 0 <= i < pe.len() implies ps[i].apply_step(#[trigger] pe[i], ps[i + 1], pr[i]) by {
            assert(entries[i] == pe[i]);
        }
        assert forall|i: int| 0 <= i < pe.len() implies (#[trigger] pe[i].amount() matches Some(a) ==> a.valid()
            && a.spec_scale() <= s) by {
            assert(entries[i] == pe[i]);
        }
        assert forall|i: int| 0 <= i < pe.len() implies ps[i].results_hold_at_scale(#[trigger] pe[i], s) by {
            assert(entries[i] == pe[i]);
        }
        law_run_at_scale_stays_balanced(ps, pe, pr, s);
        assert(ps[n - 1] == states[n - 1]);
        assert(states[n - 1].balanced() && states[n - 1].wf() && states[n - 1].scales_at_most(s));
        let e = entries[n - 1];
        law_step_at_scale(states[n - 1], e, states[n], results[n - 1], s);
        law_exact_step_keeps_values(states[n - 1], e);
        law_operations_keep_balances(states[n - 1], e, states[n], results[n - 1]);
        assert forall|i: int| 0 <= i < states.len() implies #[trigger] states[i].balanced() && states[i].wf()
            && states[i].scales_at_most(s) by {
            if i < n {
                assert(ps[i] == states[i]);
            }
        }
        assert forall|i: int| 0 <= i < entries.len() implies states[i].step_is_exact(#[trigger] entries[i]) by {
            if i < n - 1 {
                assert(ps[i] == states[i] && pe[i] == entries[i]);
            }
        }
    }
}

/// Where an operation drops no digit in the sense of `step_is_exact`, every
/// balance it computes is worth exactly what the values give.
pub proof fn law_exact_step_keeps_values(a0: AccountView, e: Entry)
    requires
        a0.wf(),
        e.amount() matches Some(a) ==> a.valid(),
        a0.step_is_exact(e),
    ensures
        a0.step_keeps_values(e),
{
    let tx = e.tx();
    match e.kind() {
        EntryType::Deposit => {
            if let Some(a) = e.amount() {
                lemma_checked_add_value(a0.available, a);
            }
        },
        EntryType::Withdrawal => {
            if let Some(a) = e.amount() {
                lemma_checked_sub_value(a0.available, a);
            }
        },
        EntryType::Dispute => {
            if a0.txs.contains_key(tx) {
                lemma_checked_sub_value(a0.available, a0.txs[tx].amount);
                lemma_checked_add_value(a0.held, a0.txs[tx].amount);
            }
        },
        EntryType::Resolve => {
            if a0.txs.contains_key(tx) {
                lemma_checked_sub_value(a0.held, a0.txs[tx].amount);
                lemma_checked_add_value(a0.available, a0.txs[tx].amount);
            }
        },
        EntryType::Chargeback => {
            if a0.txs.contains_key(tx) {
                lemma_checked_sub_value(a0.held, a0.txs[tx].amount);
            }
        },
    }
}

/// Any run of operations from a balanced account keeps it balanced at every
/// step wherever no step drops a digit: held funds stay the sum of the open
/// disputed deposits, and the total stays the deposits less the withdrawals
/// less what was charged back.
pub proof fn law_run_stays_balanced(states: Seq<AccountView>, entries: Seq<Entry>, results: Seq<AccountResult<()>>)
    requires
        states.len() == entries.len() + 1,
        results.len() == entries.len(),
        states[0].balanced(),
        forall|i: int|
            0 <= i < entries.len() ==> states[i].apply_step(#[trigger] entries[i], states[i + 1], results[i]),
        forall|i: int| 0 <= i < entries.len() ==> states[i].step_keeps_values(#[trigger] entries[i]),
    ensures
        forall|i: int| 0 <= i < states.len() ==> #[trigger] states[i].balanced(),
    decreases entries.len(),
{
    let n = entries.len() as int;
    if n > 0 {
        let (ps, pe, pr) = (states.drop_last(), entries.drop_last(), results.drop_last());
        assert forall|i: int| 0 <= i < pe.len() implies ps[i].apply_step(#[trigger] pe[i], ps[i + 1], pr[i]) by {
            assert(entries[i] == pe[i]);
        }
        assert forall|i: int| 0 <= i < pe.len() implies ps[i].step_keeps_values(#[trigger] pe[i]) by {
            assert(entries[i] == pe[i]);
        }
        law_run_stays_balanced(ps, pe, pr);
        assert(ps[n - 1] == states[n - 1]);
        assert(states[n - 1].balanced());
        law_operations_keep_balances(states[n - 1], entries[n - 1], states[n], results[n - 1]);
        assert forall|i: int| 0 <= i < states.len() implies #[trigger] states[i].balanced() by {
            if i < n {
                assert(ps[i] == states[i]);
            }
        }
    }
}

/// Once an account is locked, every later run of operations, of any kind and
/// with any entries, is refused with `Locked` at each step and leaves the
/// account exactly as it was.
pub proof fn law_locked_account_refuses_every_run(
    states: Seq<AccountView>,
    entries: Seq<Entry>,
    results: Seq<AccountResult<()>>,
)
    requires
        states.len() == entries.len() + 1,
        results.len() == entries.len(),
        states[0].locked,
        forall|i: int|
            0 <= i < entries.len() ==> states[i].apply_step(#[trigger] entries[i], states[i + 1], results[i]),
    ensures
        forall|i: int| 0 <= i < results.len() ==> #[trigger] results[i] == Err::<(), AccountError>(AccountError::Locked),
        forall|i: int| 0 <= i < states.len() ==> #[trigger] states[i] == states[0],
    decreases entries.len(),
{
    let n = entries.len() as int;
    if n > 0 {
        let (ps, pe, pr) = (states.drop_last(), entries.drop_last(), results.drop_last());
        assert forall|i: int| 0 <= i < pe.len() implies ps[i].apply_step(#[trigger] pe[i], ps[i + 1], pr[i]) by {
            assert(entries[i] == pe[i]);
        }
        law_locked_account_refuses_every_run(ps, pe, pr);
        assert(ps[n - 1] == states[n - 1]);
        assert(states[n - 1] == states[0]);
        assert(states[n - 1].apply_step(entries[n - 1], states[n], results[n - 1]));
        assert forall|i: int| 0 <= i < results.len() implies #[trigger] results[i] == Err::<(), AccountError>(
            AccountError::Locked,
        ) by {
            if i < n - 1 {
                assert(pr[i] == results[i]);
            }
        }
        assert forall|i: int| 0 <= i < states.len() implies #[trigger] states[i] == states[0] by {
            if i < n {
                assert(ps[i] == states[i]);
            }
        }
    }
}

proof fn lemma_tx_sum_disputed_nonnegative(txs: Map<u32, TxInfo>)
    requires
        txs.dom().finite(),
        forall|tx: u32| #[trigger] txs.contains_key(tx) ==> txs[tx].amount@ >= 0,
    ensures
        tx_sum(txs, true) >= 0,
    decreases txs.dom().len(),
{
    if txs.dom().len() != 0 {
        let k = txs.dom().choose();
        assert(txs.remove(k).dom() =~= txs.dom().remove(k));
        lemma_tx_sum_disputed_nonnegative(txs.remove(k));
    }
}

/// Held funds are never below zero where no recorded transaction is of an
/// amount below zero: they are a sum of disputed deposits.
pub proof fn law_held_is_never_negative(a: AccountView)
    requires
        a.balanced(),
        a.amounts_nonnegative(),
    ensures
        a.held@ >= 0,
{
    if a.locked {
        let tx = choose|tx: u32| #[trigger] a.balanced_after_chargeback_of(tx);
        lemma_tx_sum_remove(a.txs, true, tx);
        assert(a.txs.remove(tx).dom() =~= a.txs.dom().remove(tx));
        lemma_tx_sum_disputed_nonnegative(a.txs.remove(tx));
    } else {
        lemma_tx_sum_disputed_nonnegative(a.txs);
    }
}

/// An operation with an amount not below zero records no amount below zero.
pub proof fn law_operations_keep_amounts_nonnegative(a0: AccountView, e: Entry, a1: AccountView, r: AccountResult<()>)
    requires
        a0.amounts_nonnegative(),
        a0.apply_step(e, a1, r),
        e.amount() matches Some(a) ==> a@ >= 0,
    ensures
        a1.amounts_nonnegative(),
{
}

/// Any run of operations with amounts not below zero, as validation makes
/// them, from a balanced account with no recorded amount below zero, never
/// takes held funds below zero wherever no step drops a digit.
pub proof fn law_run_keeps_held_nonnegative(
    states: Seq<AccountView>,
    entries: Seq<Entry>,
    results: Seq<AccountResult<()>>,
)
    requires
        states.len() == entries.len() + 1,
        results.len() == entries.len(),
        states[0].balanced(),
        states[0].amounts_nonnegative(),
        forall|i: int|
            0 <= i < entries.len() ==> states[i].apply_step(#[trigger] entries[i], states[i + 1], results[i]),
        forall|i: int| 0 <= i < entries.len() ==> states[i].step_keeps_values(#[trigger] entries[i]),
        forall|i: int| 0 <= i < entries.len() ==> (#[trigger] entries[i].amount() matches Some(a) ==> a@ >= 0),
    ensures
        forall|i: int| 0 <= i < states.len() ==> #[trigger] states[i].amounts_nonnegative() && states[i].held@ >= 0,
    decreases entries.len(),
{
    law_run_stays_balanced(states, entries, results);
    let n = entries.len() as int;
    if n > 0 {
        let (ps, pe, pr) = (states.drop_last(), entries.drop_last(), results.drop_last());
        assert forall|i: int| 0 <= i < pe.len() implies ps[i].apply_step(#[trigger] pe[i], ps[i + 1], pr[i]) by {
            assert(entries[i] == pe[i]);
        }
        assert forall|i: int| 0 <= i < pe.len() implies ps[i].step_keeps_values(#[trigger] pe[i]) by {
            assert(entries[i] == pe[i]);
        }
        assert forall|i: int| 0 <= i < pe.len() implies (#[trigger] pe[i].amount() matches Some(a) ==> a@ >= 0) by {
            assert(entries[i] == pe[i]);
        }
        law_run_keeps_held_nonnegative(ps, pe, pr);
        assert(ps[n - 1] == states[n - 1]);
        assert(states[n - 1].amounts_nonnegative());
        law_operations_keep_amounts_nonnegative(states[n - 1], entries[n - 1], states[n], results[n - 1]);
        assert(states[n].balanced());
        law_held_is_never_negative(states[n]);
        assert forall|i: int| 0 <= i < states.len() implies #[trigger] states[i].amounts_nonnegative()
            && states[i].held@ >= 0 by {
            if i < n {
                assert(ps[i] == states[i]);
            }
        }
    } else {
        law_held_is_never_negative(states[0]);
    }
}

/// An operation whose exact balances a decimal can hold does not overflow:
/// on an account whose amounts have at most `s` decimal places, with an
/// amount of at most `s` places, wherever the exact results of the operation
/// can be held at `s` places, it is no overflow, whatever the sign of the
/// balances (a dispute may take available funds below zero).
pub proof fn law_no_overflow_where_results_hold(a0: AccountView, e: Entry, s: nat)
    requires
        s <= MAX_SCALE,
        a0.wf(),
        a0.scales_at_most(s),
        e.amount() matches Some(a) ==> a.valid() && a.spec_scale() <= s,
        a0.results_hold_at_scale(e, s),
    ensures
        !a0.apply_overflows(e),
{
    let tx = e.tx();
    match e.kind() {
        EntryType::Deposit => {
            if let Some(a) = e.amount() {
                lemma_sum_at_scale(a0.available, a, s);
            }
        },
        EntryType::Withdrawal => {
            if let Some(a) = e.amount() {
                lemma_difference_at_scale(a0.available, a, s);
            }
        },
        EntryType::Dispute => {
            if a0.txs.contains_key(tx) {
                lemma_difference_at_scale(a0.available, a0.txs[tx].amount, s);
                lemma_sum_at_scale(a0.held, a0.txs[tx].amount, s);
            }
        },
        EntryType::Resolve => {
            if a0.txs.contains_key(tx) {
                lemma_difference_at_scale(a0.held, a0.txs[tx].amount, s);
                lemma_sum_at_scale(a0.available, a0.txs[tx].amount, s);
            }
        },
        EntryType::Chargeback => {
            if a0.txs.contains_key(tx) {
                lemma_difference_at_scale(a0.held, a0.txs[tx].amount, s);
            }
        },
    }
}

/// An operation that drops no digit does not overflow.
pub proof fn law_exact_operations_never_overflow(a0: AccountView, e: Entry)
    requires
        a0.wf(),
        e.amount() matches Some(a) ==> a.valid(),
        a0.step_is_exact(e),
    ensures
        !a0.apply_overflows(e),
{
    let tx = e.tx();
    match e.kind() {
        EntryType::Deposit => {
            if let Some(a) = e.amount() {
                lemma_checked_add_value(a0.available, a);
            }
        },
        EntryType::Withdrawal => {
            if let Some(a) = e.amount() {
                lemma_checked_sub_value(a0.available, a);
            }
        },
        EntryType::Dispute => {
            if a0.txs.contains_key(tx) {
                lemma_checked_sub_value(a0.available, a0.txs[tx].amount);
                lemma_checked_add_value(a0.held, a0.txs[tx].amount);
            }
        },
        EntryType::Resolve => {
            if a0.txs.contains_key(tx) {
                lemma_checked_sub_value(a0.held, a0.txs[tx].amount);
                lemma_checked_add_value(a0.available, a0.txs[tx].amount);
            }
        },
        EntryType::Chargeback => {
            if a0.txs.contains_key(tx) {
                lemma_checked_sub_value(a0.held, a0.txs[tx].amount);
            }
        },
    }
}

/// A withdrawal of a new transaction on an unlocked account is refused for
/// want of funds exactly when available funds are below its amount; with
/// enough available funds it is accepted, whatever is held, and takes its
/// amount from available funds, leaving held funds as they were.
pub proof fn law_withdrawal_needs_only_available_funds(
    a0: AccountView,
    e: Entry,
    a1: AccountView,
    r: AccountResult<()>,
)
    requires
        a0.withdrawal_step(e, a1, r),
        !a0.locked,
        !a0.txs.contains_key(e.tx()),
        e.amount() is Some,
    ensures
        (r == Err::<(), AccountError>(AccountError::Insufficient)) == (a0.available@ < e.amount().unwrap()@),
        e.amount().unwrap()@ <= a0.available@ ==> {
            &&& r is Ok
            &&& a1.held == a0.held
            &&& a1.available == a0.available.checked_sub_spec(e.amount().unwrap()).unwrap()
            &&& a0.available.difference_is_exact(e.amount().unwrap()) ==> a1.available@ == a0.available@
                - e.amount().unwrap()@
            &&& a1.available@ >= 0
        },
{
}

/// Each type of entry reaches its own operation: an accepted deposit or
/// withdrawal of a new transaction records it under its own type, undisputed;
/// an accepted dispute leaves the transaction disputed and adds its amount to
/// held funds wherever no digit is dropped; an accepted resolve leaves it
/// undisputed; an accepted chargeback locks the account. Nothing but a
/// chargeback locks an account.
pub proof fn law_apply_routes_by_type(a0: AccountView, e: Entry, a1: AccountView)
    requires
        a0.apply_step(e, a1, Ok(())),
    ensures
        !a0.locked,
        a1.locked == (e.kind() == EntryType::Chargeback),
        (e.kind() == EntryType::Deposit || e.kind() == EntryType::Withdrawal) && !a0.txs.contains_key(e.tx()) ==> {
            &&& a1.txs.contains_key(e.tx())
            &&& a1.txs[e.tx()].kind == e.kind()
            &&& Some(a1.txs[e.tx()].amount) == e.amount()
            &&& !a1.txs[e.tx()].disputed
        },
        e.kind() == EntryType::Dispute ==> a1.is_disputed(e.tx()) && !a0.is_disputed(e.tx())
            && a0.txs[e.tx()].kind == EntryType::Deposit && (a0.held.sum_is_exact(a0.txs[e.tx()].amount)
            ==> a1.held@ == a0.held@ + a0.txs[e.tx()].amount@),
        e.kind() == EntryType::Resolve ==> !a1.is_disputed(e.tx()) && a0.is_disputed(e.tx()) && a1.txs.contains_key(
            e.tx(),
        ),
        e.kind() == EntryType::Chargeback ==> a0.is_disputed(e.tx()),
{
}

/// A deposit on a locked account is refused with `Locked`; a replayed one is
/// accepted and changes nothing; a new one without an amount is refused with
/// `MissingAmount`; any other is accepted, adds its amount to available funds
/// wherever no digit is dropped, leaves held funds alone and records the
/// transaction as an undisputed deposit.
pub proof fn law_deposit_outcome(a0: AccountView, e: Entry, a1: AccountView, r: AccountResult<()>)
    requires
        a0.deposit_step(e, a1, r),
    ensures
        a0.locked ==> r == Err::<(), AccountError>(AccountError::Locked) && a1 == a0,
        !a0.locked && a0.txs.contains_key(e.tx()) ==> r is Ok && a1 == a0,
        !a0.locked && !a0.txs.contains_key(e.tx()) && e.amount() is None ==> r == Err::<(), AccountError>(
            AccountError::MissingAmount,
        ) && a1 == a0,
        !a0.locked && !a0.txs.contains_key(e.tx()) && e.amount() is Some ==> {
            let a = e.amount().unwrap();
            &&& r is Ok
            &&& a0.available.sum_is_exact(a) ==> a1.available@ == a0.available@ + a@
            &&& a1.held == a0.held
            &&& !a1.locked
            &&& a1.txs.dom() == a0.txs.dom().insert(e.tx())
            &&& a1.txs[e.tx()] == TxInfo { kind: EntryType::Deposit, amount: a, disputed: false }
        },
{
    if !a0.locked && !a0.txs.contains_key(e.tx()) && e.amount() is Some {
        assert(a1.txs.dom() =~= a0.txs.dom().insert(e.tx()));
    }
}

/// A dispute on a locked account is refused with `Locked`; one of an unknown
/// transaction with `TxNotFound`, of a withdrawal with `NotDisputable`, of a
/// deposit under dispute with `AlreadyDisputed`. Any other is accepted: the
/// deposit's amount moves from available to held funds, even below zero,
/// wherever no digit is dropped, and the deposit is marked disputed.
pub proof fn law_dispute_outcome(a0: AccountView, e: Entry, a1: AccountView, r: AccountResult<()>)
    requires
        a0.dispute_step(e, a1, r),
    ensures
        a0.locked ==> r == Err::<(), AccountError>(AccountError::Locked) && a1 == a0,
        !a0.locked && !a0.txs.contains_key(e.tx()) ==> r == Err::<(), AccountError>(AccountError::TxNotFound)
            && a1 == a0,
        !a0.locked && a0.txs.contains_key(e.tx()) && a0.txs[e.tx()].kind == EntryType::Withdrawal ==> r
            == Err::<(), AccountError>(AccountError::NotDisputable) && a1 == a0,
        !a0.locked && a0.txs.contains_key(e.tx()) && a0.txs[e.tx()].kind == EntryType::Deposit
            && a0.txs[e.tx()].disputed ==> r == Err::<(), AccountError>(AccountError::AlreadyDisputed) && a1 == a0,
        !a0.locked && a0.txs.contains_key(e.tx()) && a0.txs[e.tx()].kind == EntryType::Deposit
            && !a0.txs[e.tx()].disputed ==> {
            let amt = a0.txs[e.tx()].amount;
            &&& r is Ok
            &&& a0.available.difference_is_exact(amt) ==> a1.available@ == a0.available@ - amt@
            &&& a0.held.sum_is_exact(amt) ==> a1.held@ == a0.held@ + amt@
            &&& !a1.locked
            &&& a1.is_disputed(e.tx())
            &&& a1.txs[e.tx()].amount == amt
            &&& a1.txs.dom() == a0.txs.dom()
        },
{
    if !a0.locked && a0.txs.contains_key(e.tx()) && a0.txs[e.tx()].kind == EntryType::Deposit
        && !a0.txs[e.tx()].disputed {
        assert(a1.txs.dom() =~= a0.txs.dom());
    }
}

/// A resolve on a locked account is refused with `Locked`; one of an unknown
/// transaction with `TxNotFound`, of one not under dispute with
/// `NotDisputed`. Any other is accepted: the amount moves from held back to
/// available funds wherever no digit is dropped, and the transaction is no
/// longer disputed.
pub proof fn law_resolve_outcome(a0: AccountView, e: Entry, a1: AccountView, r: AccountResult<()>)
    requires
        a0.resolve_step(e, a1, r),
    ensures
        a0.locked ==> r == Err::<(), AccountError>(AccountError::Locked) && a1 == a0,
        !a0.locked && !a0.txs.contains_key(e.tx()) ==> r == Err::<(), AccountError>(AccountError::TxNotFound)
            && a1 == a0,
        !a0.locked && a0.txs.contains_key(e.tx()) && !a0.txs[e.tx()].disputed ==> r == Err::<(), AccountError>(
            AccountError::NotDisputed,
        ) && a1 == a0,
        !a0.locked && a0.is_disputed(e.tx()) ==> {
            let amt = a0.txs[e.tx()].amount;
            &&& r is Ok
            &&& a0.held.difference_is_exact(amt) ==> a1.held@ == a0.held@ - amt@
            &&& a0.available.sum_is_exact(amt) ==> a1.available@ == a0.available@ + amt@
            &&& !a1.locked
            &&& a1.txs.contains_key(e.tx()) && !a1.txs[e.tx()].disputed
            &&& a1.txs[e.tx()].amount == amt
            &&& a1.txs[e.tx()].kind == a0.txs[e.tx()].kind
        },
{
}

/// A chargeback on a locked account is refused with `Locked`; one of an
/// unknown transaction with `TxNotFound`, of one not under dispute with
/// `NotDisputed`. Any other is accepted: the amount leaves held funds for
/// good wherever no digit is dropped, available funds stay as they are, and
/// the account is locked.
pub proof fn law_chargeback_outcome(a0: AccountView, e: Entry, a1: AccountView, r: AccountResult<()>)
    requires
        a0.chargeback_step(e, a1, r),
    ensures
        a0.locked ==> r == Err::<(), AccountError>(AccountError::Locked) && a1 == a0,
        !a0.locked && !a0.txs.contains_key(e.tx()) ==> r == Err::<(), AccountError>(AccountError::TxNotFound)
            && a1 == a0,
        !a0.locked && a0.txs.contains_key(e.tx()) && !a0.txs[e.tx()].disputed ==> r == Err::<(), AccountError>(
            AccountError::NotDisputed,
        ) && a1 == a0,
        !a0.locked && a0.is_disputed(e.tx()) ==> {
            let amt = a0.txs[e.tx()].amount;
            &&& r is Ok
            &&& a0.held.difference_is_exact(amt) ==> a1.held@ == a0.held@ - amt@
            &&& a1.available == a0.available
            &&& a1.locked
            &&& a1.txs == a0.txs
        },
{
}

} // verus!
