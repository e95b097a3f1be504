//! The abstract state of the vault: its persistent storage as mathematical
//! maps, sets and sequences, the invariants every reachable state keeps, and
//! the elementary updates the storage layer performs.
use vstd::prelude::*;

use crate::constants::{MAX_DEPOSIT_AMOUNT, MAX_LOCK_DURATION_SECS};
use crate::types::{Address, Event, Ledger, LedgerVaultEntry, Step, Transfer, VaultEntry};

verus! {

/// The vault's persistent storage.
///
/// * `deposits` / `ledger_deposits`: the active timestamp- and ledger-locked
///   deposits, keyed by `(depositor, deposit id)`;
/// * `counters`: the next deposit id of each depositor (absent means 0);
/// * `depositors`: the depositor index, one slot per address that holds at
///   least one active deposit;
/// * `index_list`: a plain address list kept under a key of its own by the
///   depositor-index helpers (`add_to_depositor_index`,
///   `remove_from_depositor_index`); the contract's entry points neither read
///   nor write it;
/// * the remaining fields are the admin configuration and the pause and
///   freeze flags.
#[verifier::ext_equal]
pub struct VaultModel {
    pub admin: Option<Address>,
    pub pending_admin: Option<Address>,
    pub initialized: bool,
    pub fee_recipient: Option<Address>,
    pub max_deposit: Option<i128>,
    pub max_lock_secs: Option<u64>,
    pub paused: bool,
    pub max_penalty_bps: Option<u32>,
    pub min_cancel_fee: Option<i128>,
    pub deposits: Map<(Address, u32), VaultEntry>,
    pub ledger_deposits: Map<(Address, u32), LedgerVaultEntry>,
    pub counters: Map<Address, u32>,
    pub depositors: Seq<Address>,
    pub index_list: Seq<Address>,
    pub frozen: Set<Address>,
    pub frozen_tokens: Set<Address>,
}

impl VaultModel {
    /// The storage of a freshly deployed vault.
    pub open spec fn empty() -> VaultModel {
        VaultModel {
            admin: None,
            pending_admin: None,
            initialized: false,
            fee_recipient: None,
            max_deposit: None,
            max_lock_secs: None,
            paused: false,
            max_penalty_bps: None,
            min_cancel_fee: None,
            deposits: Map::empty(),
            ledger_deposits: Map::empty(),
            counters: Map::empty(),
            depositors: Seq::empty(),
            index_list: Seq::empty(),
            frozen: Set::empty(),
            frozen_tokens: Set::empty(),
        }
    }

    // ------------------------------------------------------------
    //  Reads
    // ------------------------------------------------------------
    /// The id the next deposit of `a` receives.
    pub open spec fn counter(self, a: Address) -> u32 {
        if self.counters.contains_key(a) {
            self.counters[a]
        } else {
            0
        }
    }

    pub open spec fn effective_max_deposit(self) -> i128 {
        match self.max_deposit {
            Some(v) => v,
            None => MAX_DEPOSIT_AMOUNT,
        }
    }

    pub open spec fn effective_max_lock_secs(self) -> u64 {
        match self.max_lock_secs {
            Some(v) => v,
            None => MAX_LOCK_DURATION_SECS,
        }
    }

    pub open spec fn effective_max_penalty_bps(self) -> u32 {
        match self.max_penalty_bps {
            Some(v) => v,
            None => 10_000,
        }
    }

    pub open spec fn effective_min_cancel_fee(self) -> i128 {
        match self.min_cancel_fee {
            Some(v) => v,
            None => 0,
        }
    }

    pub open spec fn deposit_of(self, a: Address, i: u32) -> Option<VaultEntry> {
        if self.deposits.contains_key((a, i)) {
            Some(self.deposits[(a, i)])
        } else {
            None
        }
    }

    pub open spec fn ledger_deposit_of(self, a: Address, i: u32) -> Option<LedgerVaultEntry> {
        if self.ledger_deposits.contains_key((a, i)) {
            Some(self.ledger_deposits[(a, i)])
        } else {
            None
        }
    }

    /// Deposit `i` of `a` is active in one of the two stores.
    pub open spec fn is_active(self, a: Address, i: u32) -> bool {
        self.deposits.contains_key((a, i)) || self.ledger_deposits.contains_key((a, i))
    }

    /// The ids of all active deposits of `a`.
    pub open spec fn active_ids(self, a: Address) -> Set<u32> {
        Set::new(|i: u32| self.is_active(a, i))
    }

    /// `a` holds at least one active deposit.
    pub open spec fn has_active(self, a: Address) -> bool {
        exists|i: u32| #[trigger] self.is_active(a, i)
    }

    /// The timestamp-locked deposit ids of `a` below `n`, ascending.
    pub open spec fn time_ids_below(self, a: Address, n: nat) -> Seq<u32>
        decreases n,
    {
        if n == 0 {
            Seq::empty()
        } else {
            let rest = self.time_ids_below(a, (n - 1) as nat);
            if self.deposits.contains_key((a, (n - 1) as u32)) {
                rest.push((n - 1) as u32)
            } else {
                rest
            }
        }
    }

    /// The ledger-locked deposit ids of `a` below `n`, ascending.
    pub open spec fn ledger_ids_below(self, a: Address, n: nat) -> Seq<u32>
        decreases n,
    {
        if n == 0 {
            Seq::empty()
        } else {
            let rest = self.ledger_ids_below(a, (n - 1) as nat);
            if self.ledger_deposits.contains_key((a, (n - 1) as u32)) {
                rest.push((n - 1) as u32)
            } else {
                rest
            }
        }
    }

    /// The active deposit ids of `a` (either kind) below `n`, ascending.
    pub open spec fn all_ids_below(self, a: Address, n: nat) -> Seq<u32>
        decreases n,
    {
        if n == 0 {
            Seq::empty()
        } else {
            let rest = self.all_ids_below(a, (n - 1) as nat);
            if self.is_active(a, (n - 1) as u32) {
                rest.push((n - 1) as u32)
            } else {
                rest
            }
        }
    }

    /// The active timestamp-locked deposit ids of `a`, ascending.
    pub open spec fn time_ids(self, a: Address) -> Seq<u32> {
        self.time_ids_below(a, self.counter(a) as nat)
    }

    /// The index of `a` in the depositor list (meaningful when it is there).
    pub open spec fn slot_of(self, a: Address) -> int {
        choose|i: int| 0 <= i < self.depositors.len() && self.depositors[i] == a
    }

    /// The depositors in slots `offset ..` up to `limit` of them, as
    /// `get_depositors_page` reads them (the end of the range saturates).
    pub open spec fn depositors_page(self, offset: u32, limit: u32) -> Seq<Address> {
        let sum = offset as int + limit as int;
        let capped = if sum > u32::MAX { u32::MAX as int } else { sum };
        let end = if capped < self.depositors.len() { capped } else { self.depositors.len() as int };
        if offset < end {
            self.depositors.subrange(offset as int, end)
        } else {
            Seq::empty()
        }
    }

    // ------------------------------------------------------------
    //  Invariants
    // ------------------------------------------------------------
    /// Every stored deposit has an id already handed out to its depositor,
    /// names that depositor, holds a positive amount and a penalty of at most
    /// 100%; no id is stored under both kinds of lock.
    pub open spec fn entries_ok(self) -> bool {
        &&& forall|k: (Address, u32)| #[trigger]
            self.deposits.contains_key(k) ==> {
                &&& k.1 < self.counter(k.0)
                &&& self.deposits[k].depositor == k.0
                &&& self.deposits[k].amount > 0
                &&& self.deposits[k].penalty_bps <= 10_000
                &&& !self.ledger_deposits.contains_key(k)
            }
        &&& forall|k: (Address, u32)| #[trigger]
            self.ledger_deposits.contains_key(k) ==> {
                &&& k.1 < self.counter(k.0)
                &&& self.ledger_deposits[k].depositor == k.0
                &&& self.ledger_deposits[k].amount > 0
                &&& self.ledger_deposits[k].penalty_bps <= 10_000
            }
    }

    /// The invariant the storage layer keeps by itself.
    pub open spec fn basic_inv(self) -> bool {
        &&& self.entries_ok()
        &&& self.depositors.no_duplicates()
        &&& self.depositors.len() <= u32::MAX
        &&& self.effective_max_penalty_bps() <= 10_000
        &&& self.effective_min_cancel_fee() >= 0
    }

    /// The depositor list holds exactly the addresses with an active deposit.
    pub open spec fn index_matches_deposits(self) -> bool {
        forall|a: Address|
            #![trigger self.depositors.contains(a)]
            #![trigger self.has_active(a)]
            self.depositors.contains(a) <==> self.has_active(a)
    }

    /// The invariant of every state the contract can reach.
    pub open spec fn inv(self) -> bool {
        &&& self.basic_inv()
        &&& self.index_matches_deposits()
        &&& (self.admin is Some ==> self.initialized)
        &&& (self.pending_admin is Some ==> self.admin is Some)
    }

    /// No depositor's id counter went down from `self` to `next`: deposit ids
    /// are never handed out twice.
    pub open spec fn counters_grow(self, next: VaultModel) -> bool {
        forall|a: Address| #[trigger] self.counter(a) <= next.counter(a)
    }

    // ------------------------------------------------------------
    //  Elementary updates
    // ------------------------------------------------------------
    pub open spec fn set_counter(self, a: Address, c: u32) -> VaultModel {
        VaultModel { counters: self.counters.insert(a, c), ..self }
    }

    pub open spec fn insert_deposit(self, a: Address, i: u32, e: VaultEntry) -> VaultModel {
        VaultModel { deposits: self.deposits.insert((a, i), e), ..self }
    }

    pub open spec fn remove_deposit(self, a: Address, i: u32) -> VaultModel {
        VaultModel { deposits: self.deposits.remove((a, i)), ..self }
    }

    pub open spec fn insert_ledger_deposit(self, a: Address, i: u32, e: LedgerVaultEntry) -> VaultModel {
        VaultModel { ledger_deposits: self.ledger_deposits.insert((a, i), e), ..self }
    }

    pub open spec fn remove_ledger_deposit(self, a: Address, i: u32) -> VaultModel {
        VaultModel { ledger_deposits: self.ledger_deposits.remove((a, i)), ..self }
    }

    /// Appends `a` to the depositor list unless it is already there.
    pub open spec fn add_depositor(self, a: Address) -> VaultModel {
        if self.depositors.contains(a) {
            self
        } else {
            VaultModel { depositors: self.depositors.push(a), ..self }
        }
    }

    /// Removes `a` from the depositor list, unless it still holds a deposit or
    /// is not listed: the last slot moves into the freed one.
    pub open spec fn remove_depositor(self, a: Address) -> VaultModel {
        if self.has_active(a) || !self.depositors.contains(a) {
            self
        } else {
            let last = self.depositors.len() - 1;
            VaultModel {
                depositors: self.depositors.update(self.slot_of(a), self.depositors[last]).drop_last(),
                ..self
            }
        }
    }
}

/// What the host environment looks like to the vault: the ledger, the
/// vault's own address and storage, the ordered record of requested
/// authorizations, token transfers and published events, and the journal:
/// the order in which the vault asked for authorizations, wrote storage,
/// moved tokens and published events (consecutive writes count as one).
#[verifier::ext_equal]
pub struct EnvView {
    pub ledger: Ledger,
    pub contract: Address,
    pub storage: VaultModel,
    pub auths: Seq<Address>,
    pub transfers: Seq<Transfer>,
    pub events: Seq<Event>,
    pub journal: Seq<Step>,
}

/// The journal after a storage write: a `Write` step, unless the last step
/// already is one.
pub open spec fn after_write(j: Seq<Step>) -> Seq<Step> {
    if j.len() > 0 && j.last() == Step::Write {
        j
    } else {
        j.push(Step::Write)
    }
}

impl EnvView {
    pub open spec fn now(self) -> u64 {
        self.ledger.timestamp
    }

    pub open spec fn seq(self) -> u32 {
        self.ledger.sequence
    }

    pub open spec fn with_storage(self, m: VaultModel) -> EnvView {
        EnvView { storage: m, journal: after_write(self.journal), ..self }
    }

    pub open spec fn auth(self, a: Address) -> EnvView {
        EnvView { auths: self.auths.push(a), journal: self.journal.push(Step::Auth), ..self }
    }

    pub open spec fn transfer(self, token: Address, from: Address, to: Address, amount: i128) -> EnvView {
        EnvView {
            transfers: self.transfers.push(Transfer { token, from, to, amount }),
            journal: self.journal.push(Step::Transfer),
            ..self
        }
    }

    pub open spec fn emit(self, ev: Event) -> EnvView {
        EnvView { events: self.events.push(ev), journal: self.journal.push(Step::Event), ..self }
    }
}

} // verus!
