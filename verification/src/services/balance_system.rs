//! The balance ledger: what each account holds, and how much of it is locked
//! for the bet that is under way.

use vstd::hash_map::StringHashMap;
use vstd::prelude::*;

verus! {

/// What a guest account starts with.
pub const DEFAULT_GUEST_BALANCE: u64 = 999_900;

/// One account: committed funds, and the part of them that is reserved.
#[derive(Clone, Copy, Debug, PartialEq, Eq, Structural)]
pub struct Account {
    pub balance: u64,
    pub reserved: u64,
}

/// Why the ledger refused an operation.
#[derive(Clone, Copy, Debug, PartialEq, Eq, Structural)]
pub enum BalanceError {
    /// No account is kept under this identifier.
    UnknownAccount,
    /// The account holds less than the amount asked for.
    InsufficientFunds,
}

/// The mathematical ledger: account identifier to account.
pub type Ledger = Map<Seq<char>, Account>;

/// What `uuid` can still wager: balance less reservation, never below zero,
/// and zero for an unknown account.
pub open spec fn available(ledger: Ledger, uuid: Seq<char>) -> nat {
    if ledger.contains_key(uuid) && ledger[uuid].reserved <= ledger[uuid].balance {
        (ledger[uuid].balance - ledger[uuid].reserved) as nat
    } else {
        0
    }
}

/// No account has more reserved than it holds.
pub open spec fn solvent(ledger: Ledger) -> bool {
    forall|uuid: Seq<char>| #[trigger]
        ledger.contains_key(uuid) ==> ledger[uuid].reserved <= ledger[uuid].balance
}

/// The ledger after `uuid` was made sure to have an account.
pub open spec fn with_account(ledger: Ledger, uuid: Seq<char>) -> Ledger {
    if ledger.contains_key(uuid) {
        ledger
    } else {
        ledger.insert(uuid, Account { balance: DEFAULT_GUEST_BALANCE, reserved: 0 })
    }
}

/// The sum of a balance and a credit, capped at the largest balance that an
/// account can hold.
pub open spec fn capped_sum(balance: u64, amount: u64) -> u64 {
    if balance + amount > u64::MAX {
        u64::MAX
    } else {
        (balance + amount) as u64
    }
}

/// The ledger after `amount` was credited to `uuid`.
pub open spec fn credited(ledger: Ledger, uuid: Seq<char>, amount: u64) -> Ledger {
    if ledger.contains_key(uuid) {
        ledger.insert(
            uuid,
            Account {
                balance: capped_sum(ledger[uuid].balance, amount),
                reserved: ledger[uuid].reserved,
            },
        )
    } else {
        ledger
    }
}

/// Whether `amount` can be debited from `uuid`.
pub open spec fn can_debit(ledger: Ledger, uuid: Seq<char>, amount: u64) -> bool {
    ledger.contains_key(uuid) && amount <= ledger[uuid].balance
}

/// The ledger after `amount` was debited from `uuid`.
pub open spec fn debited(ledger: Ledger, uuid: Seq<char>, amount: u64) -> Ledger {
    if can_debit(ledger, uuid, amount) {
        ledger.insert(
            uuid,
            Account {
                balance: (ledger[uuid].balance - amount) as u64,
                reserved: ledger[uuid].reserved,
            },
        )
    } else {
        ledger
    }
}

/// Whether `uuid` can reserve `amount`.
pub open spec fn can_reserve(ledger: Ledger, uuid: Seq<char>, amount: u64) -> bool {
    ledger.contains_key(uuid) && amount <= available(ledger, uuid)
}

/// The ledger after `uuid` tried to reserve `amount`: the reservation is
/// replaced, not added to.
pub open spec fn reserved_for(ledger: Ledger, uuid: Seq<char>, amount: u64) -> Ledger {
    if can_reserve(ledger, uuid, amount) {
        ledger.insert(uuid, Account { balance: ledger[uuid].balance, reserved: amount })
    } else {
        ledger
    }
}

/// The ledger after the reservation of `uuid` was committed: the reserved
/// amount leaves the balance, as far as the balance covers it, and the
/// reservation is zero.
pub open spec fn committed(ledger: Ledger, uuid: Seq<char>) -> Ledger {
    if ledger.contains_key(uuid) {
        let account = ledger[uuid];
        ledger.insert(
            uuid,
            Account {
                balance: if account.reserved <= account.balance {
                    (account.balance - account.reserved) as u64
                } else {
                    account.balance
                },
                reserved: 0,
            },
        )
    } else {
        ledger
    }
}

/// The ledger after the reservation of `uuid` was released: the balance
/// stays, the reservation is zero.
pub open spec fn released(ledger: Ledger, uuid: Seq<char>) -> Ledger {
    if ledger.contains_key(uuid) {
        ledger.insert(uuid, Account { balance: ledger[uuid].balance, reserved: 0 })
    } else {
        ledger
    }
}

/// A solvent ledger stays solvent when an account is opened, credited,
/// reserved against, committed or released.
pub proof fn lemma_solvency_is_kept(ledger: Ledger, uuid: Seq<char>, amount: u64)
    requires
        solvent(ledger),
    ensures
        solvent(with_account(ledger, uuid)),
        solvent(credited(ledger, uuid, amount)),
        solvent(reserved_for(ledger, uuid, amount)),
        solvent(committed(ledger, uuid)),
        solvent(released(ledger, uuid)),
{
    assert(ledger.contains_key(uuid) ==> ledger[uuid].reserved <= ledger[uuid].balance);
    assert forall|other: Seq<char>| #[trigger]
        with_account(ledger, uuid).contains_key(other) implies with_account(
        ledger,
        uuid,
    )[other].reserved <= with_account(ledger, uuid)[other].balance by {
        assert(other != uuid ==> ledger.contains_key(other));
    }
    assert forall|other: Seq<char>| #[trigger]
        credited(ledger, uuid, amount).contains_key(other) implies credited(
        ledger,
        uuid,
        amount,
    )[other].reserved <= credited(ledger, uuid, amount)[other].balance by {
        assert(ledger.contains_key(other));
    }
    assert forall|other: Seq<char>| #[trigger]
        reserved_for(ledger, uuid, amount).contains_key(other) implies reserved_for(
        ledger,
        uuid,
        amount,
    )[other].reserved <= reserved_for(ledger, uuid, amount)[other].balance by {
        assert(ledger.contains_key(other));
    }
    assert forall|other: Seq<char>| #[trigger]
        committed(ledger, uuid).contains_key(other) implies committed(ledger, uuid)[other].reserved
        <= committed(ledger, uuid)[other].balance by {
        assert(ledger.contains_key(other));
    }
    assert forall|other: Seq<char>| #[trigger]
        released(ledger, uuid).contains_key(other) implies released(ledger, uuid)[other].reserved
        <= released(ledger, uuid)[other].balance by {
        assert(ledger.contains_key(other));
    }
}

/// A debit keeps a solvent ledger solvent where it takes no more than the
/// account has available.
pub proof fn lemma_debit_within_available_keeps_solvency(
    ledger: Ledger,
    uuid: Seq<char>,
    amount: u64,
)
    requires
        solvent(ledger),
        amount <= available(ledger, uuid),
    ensures
        solvent(debited(ledger, uuid, amount)),
{
    assert(ledger.contains_key(uuid) ==> ledger[uuid].reserved <= ledger[uuid].balance);
    assert forall|other: Seq<char>| #[trigger]
        debited(ledger, uuid, amount).contains_key(other) implies debited(
        ledger,
        uuid,
        amount,
    )[other].reserved <= debited(ledger, uuid, amount)[other].balance by {
        assert(ledger.contains_key(other));
    }
}

/// In a solvent ledger what is available and what is reserved add up to
/// the balance.
pub proof fn lemma_available_in_solvent_ledger(ledger: Ledger, uuid: Seq<char>)
    requires
        solvent(ledger),
        ledger.contains_key(uuid),
    ensures
        ledger[uuid].reserved <= ledger[uuid].balance,
        available(ledger, uuid) + ledger[uuid].reserved == ledger[uuid].balance,
{
}

/// The ledger of all accounts.
pub struct BalanceSystem {
    accounts: StringHashMap<Account>,
}

impl View for BalanceSystem {
    type V = Ledger;

    closed spec fn view(&self) -> Ledger {
        self.accounts@
    }
}

impl BalanceSystem {
    /// A ledger without accounts.
    pub fn new() -> (ledger: Self)
        ensures
            ledger@ == Map::<Seq<char>, Account>::empty(),
    {
        BalanceSystem { accounts: StringHashMap::new() }
    }

    /// Opens an account for `uuid` with the default stake and no
    /// reservation, unless it has one.
    pub fn ensure_balance(&mut self, uuid: String)
        ensures
            final(self)@ == with_account(old(self)@, uuid@),
            solvent(old(self)@) ==> solvent(final(self)@),
    {
        proof {
            if solvent(self@) {
                lemma_solvency_is_kept(self@, uuid@, 0);
            }
        }
        if !self.accounts.contains_key(uuid.as_str()) {
            self.accounts.insert(uuid, Account { balance: DEFAULT_GUEST_BALANCE, reserved: 0 });
        }
    }

    /// The account of `uuid`, if it has one.
    pub fn account(&self, uuid: &str) -> (found: Option<Account>)
        ensures
            match found {
                Some(account) => self@.contains_key(uuid@) && self@[uuid@] == account,
                None => !self@.contains_key(uuid@),
            },
    {
        match self.accounts.get(uuid) {
            Some(account) => Some(*account),
            None => None,
        }
    }

    /// What `uuid` can still wager; zero for an unknown account.
    pub fn fetch_balance(&self, uuid: &str) -> (amount: u64)
        ensures
            amount == available(self@, uuid@),
    {
        match self.accounts.get(uuid) {
            Some(account) => account.balance.saturating_sub(account.reserved),
            None => 0,
        }
    }

    /// Credits `amount_to_add` to `uuid` and returns the new balance, which
    /// is capped at `u64::MAX`.
    pub fn add(&mut self, uuid: &str, amount_to_add: u64) -> (outcome: Result<u64, BalanceError>)
        ensures
            final(self)@ == credited(old(self)@, uuid@, amount_to_add),
            match outcome {
                Ok(balance) => old(self)@.contains_key(uuid@) && balance == final(self)@[uuid@].balance,
                Err(e) => !old(self)@.contains_key(uuid@) && e == BalanceError::UnknownAccount,
            },
            solvent(old(self)@) ==> solvent(final(self)@),
    {
        proof {
            if solvent(self@) {
                lemma_solvency_is_kept(self@, uuid@, amount_to_add);
            }
        }
        match self.account(uuid) {
            Some(account) => {
                let balance = account.balance.saturating_add(amount_to_add);
                self.accounts.insert(
                    uuid.to_owned(),
                    Account { balance, reserved: account.reserved },
                );
                Ok(balance)
            },
            None => Err(BalanceError::UnknownAccount),
        }
    }

    /// Debits `amount_to_sub` from `uuid` and returns the new balance.
    ///
    /// Fails, and changes nothing, where the account is unknown or holds
    /// less than the amount.
    pub fn sub(&mut self, uuid: &str, amount_to_sub: u64) -> (outcome: Result<u64, BalanceError>)
        ensures
            final(self)@ == debited(old(self)@, uuid@, amount_to_sub),
            match outcome {
                Ok(balance) => can_debit(old(self)@, uuid@, amount_to_sub) && balance == old(self)@[uuid@].balance - amount_to_sub,
                Err(BalanceError::UnknownAccount) => !old(self)@.contains_key(uuid@),
                Err(BalanceError::InsufficientFunds) => old(self)@.contains_key(uuid@)
                    && amount_to_sub > old(self)@[uuid@].balance,
            },
            solvent(old(self)@) && amount_to_sub <= available(old(self)@, uuid@) ==> solvent(
                final(self)@,
            ),
    {
        proof {
            if solvent(self@) && amount_to_sub <= available(self@, uuid@) {
                lemma_debit_within_available_keeps_solvency(self@, uuid@, amount_to_sub);
            }
        }
        match self.account(uuid) {
            Some(account) => {
                if account.balance >= amount_to_sub {
                    let balance = account.balance - amount_to_sub;
                    self.accounts.insert(
                        uuid.to_owned(),
                        Account { balance, reserved: account.reserved },
                    );
                    Ok(balance)
                } else {
                    Err(BalanceError::InsufficientFunds)
                }
            },
            None => Err(BalanceError::UnknownAccount),
        }
    }

    /// Whether `amount_to_sub` can be debited from `uuid`.
    pub fn can_sub(&self, uuid: &str, amount_to_sub: u64) -> (yes: bool)
        ensures
            yes == can_debit(self@, uuid@, amount_to_sub),
    {
        match self.account(uuid) {
            Some(account) => account.balance >= amount_to_sub,
            None => false,
        }
    }

    /// Reserves `amount_to_reserve` for the bet of `uuid`, in place of any
    /// earlier reservation.
    ///
    /// Succeeds exactly where the account exists and has that much
    /// available; otherwise nothing changes.
    pub fn reserve_bet_amount(&mut self, uuid: &str, amount_to_reserve: u64) -> (done: bool)
        ensures
            done == can_reserve(old(self)@, uuid@, amount_to_reserve),
            final(self)@ == reserved_for(old(self)@, uuid@, amount_to_reserve),
            solvent(old(self)@) ==> solvent(final(self)@),
    {
        proof {
            if solvent(self@) {
                lemma_solvency_is_kept(self@, uuid@, amount_to_reserve);
            }
        }
        match self.account(uuid) {
            Some(account) => {
                if account.balance.saturating_sub(account.reserved) >= amount_to_reserve {
                    self.accounts.insert(
                        uuid.to_owned(),
                        Account { balance: account.balance, reserved: amount_to_reserve },
                    );
                    true
                } else {
                    false
                }
            },
            None => false,
        }
    }

    /// Settles a lost bet: the reserved amount leaves the balance and the
    /// reservation is cleared.
    pub fn commit_reserved_bet_amount(&mut self, uuid: &str)
        ensures
            final(self)@ == committed(old(self)@, uuid@),
            solvent(old(self)@) ==> solvent(final(self)@),
    {
        proof {
            if solvent(self@) {
                lemma_solvency_is_kept(self@, uuid@, 0);
            }
        }
        match self.account(uuid) {
            Some(account) => {
                let balance = if account.reserved <= account.balance {
                    account.balance - account.reserved
                } else {
                    account.balance
                };
                self.accounts.insert(uuid.to_owned(), Account { balance, reserved: 0 });
            },
            None => {},
        }
    }

    /// Frees the reservation of `uuid` without touching its balance.
    pub fn release_reserved_bet_amount(&mut self, uuid: &str)
        ensures
            final(self)@ == released(old(self)@, uuid@),
            solvent(old(self)@) ==> solvent(final(self)@),
    {
        proof {
            if solvent(self@) {
                lemma_solvency_is_kept(self@, uuid@, 0);
            }
        }
        match self.account(uuid) {
            Some(account) => {
                self.accounts.insert(
                    uuid.to_owned(),
                    Account { balance: account.balance, reserved: 0 },
                );
            },
            None => {},
        }
    }
}

} // verus!
