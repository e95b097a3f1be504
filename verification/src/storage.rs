//! The vault's persistent storage and the helpers that read and write it.
//!
//! Key space (one map per key kind):
//!
//! | key | value | written by | removed by |
//! |-----|-------|------------|------------|
//! | admin | address | `initialize`, `accept_admin` | `renounce_admin` |
//! | pending admin | address | `transfer_admin` | `accept_admin`, `cancel_transfer_admin`, `renounce_admin` |
//! | initialized | flag | `initialize` | never |
//! | fee recipient, max deposit, max lock, max penalty, min cancel fee | config | admin calls | never |
//! | paused | flag | pause calls | never |
//! | deposit counter (per depositor) | `u32` | every deposit | never (ids are never reused) |
//! | deposit (depositor, id) | `VaultEntry` | `deposit`, `deposit_for`, migration | withdrawals, cancel, migration |
//! | ledger deposit (depositor, id) | `LedgerVaultEntry` | `deposit_by_ledger`, migration | withdrawals, cancel, migration |
//! | active deposit count (per depositor) | `u32` | deposit writes | deposit removals |
//! | depositor slots, slot of depositor | index | `add_depositor` | `remove_depositor` |
//! | index list | addresses | `add_to_depositor_index` | `remove_from_depositor_index` |
//! | frozen depositor / frozen token | flag | freeze calls | unfreeze calls |
use std::collections::HashMap;
use vstd::prelude::*;

use crate::env::Env;
use crate::errors::VaultError;
use crate::model::VaultModel;
use crate::types::{Address, LedgerVaultEntry, VaultEntry};

verus! {

broadcast use vstd::std_specs::hash::group_hash_axioms;

/// The persistent storage of one vault.
#[derive(Clone)]
pub struct Storage {
    admin: Option<Address>,
    pending_admin: Option<Address>,
    initialized: bool,
    fee_recipient: Option<Address>,
    max_deposit: Option<i128>,
    max_lock_secs: Option<u64>,
    paused: bool,
    max_penalty_bps: Option<u32>,
    min_cancel_fee: Option<i128>,
    deposits: HashMap<u128, VaultEntry>,
    ledger_deposits: HashMap<u128, LedgerVaultEntry>,
    counters: HashMap<u64, u32>,
    active_counts: HashMap<u64, u32>,
    depositor_slots: Vec<Address>,
    slot_index: HashMap<u64, u32>,
    index_list: Vec<Address>,
    frozen: HashMap<u64, ()>,
    frozen_tokens: HashMap<u64, ()>,
}

/// The map key of deposit `i` of `a`.
pub open spec fn deposit_key(a: Address, i: u32) -> u128 {
    ((a.id as int) * 0x1_0000_0000 + (i as int)) as u128
}

proof fn lemma_deposit_key_injective(a1: Address, i1: u32, a2: Address, i2: u32)
    ensures
        deposit_key(a1, i1) == deposit_key(a2, i2) ==> a1 == a2 && i1 == i2,
{
    let x1 = a1.id as int;
    let x2 = a2.id as int;
    let j1 = i1 as int;
    let j2 = i2 as int;
    assert(0 <= x1 * 0x1_0000_0000 + j1 < 0x1_0000_0000_0000_0000_0000_0000) by (nonlinear_arith)
        requires
            0 <= x1 < 0x1_0000_0000_0000_0000,
            0 <= j1 < 0x1_0000_0000,
    ;
    assert(0 <= x2 * 0x1_0000_0000 + j2 < 0x1_0000_0000_0000_0000_0000_0000) by (nonlinear_arith)
        requires
            0 <= x2 < 0x1_0000_0000_0000_0000,
            0 <= j2 < 0x1_0000_0000,
    ;
    if x1 * 0x1_0000_0000 + j1 == x2 * 0x1_0000_0000 + j2 {
        assert(x1 == x2 && j1 == j2) by (nonlinear_arith)
            requires
                x1 * 0x1_0000_0000 + j1 == x2 * 0x1_0000_0000 + j2,
                0 <= j1 < 0x1_0000_0000,
                0 <= j2 < 0x1_0000_0000,
        ;
    }
}

proof fn lemma_deposit_keys_injective()
    ensures
        forall|a1: Address, i1: u32, a2: Address, i2: u32|
            #[trigger] deposit_key(a1, i1) == #[trigger] deposit_key(a2, i2) ==> a1 == a2 && i1
                == i2,
{
    assert forall|a1: Address, i1: u32, a2: Address, i2: u32|
        #[trigger] deposit_key(a1, i1) == #[trigger] deposit_key(a2, i2) implies a1 == a2 && i1
        == i2 by {
        lemma_deposit_key_injective(a1, i1, a2, i2);
    }
}

fn key_of(a: &Address, i: u32) -> (k: u128)
    ensures
        k == deposit_key(*a, i),
{
    proof {
        let x = a.id as int;
        assert(0 <= x * 0x1_0000_0000 + i < 0x1_0000_0000_0000_0000_0000_0000) by (nonlinear_arith)
            requires
                0 <= x < 0x1_0000_0000_0000_0000,
                0 <= i < 0x1_0000_0000,
        ;
    }
    (a.id as u128) * 0x1_0000_0000u128 + (i as u128)
}

/// The ids of `m`'s active deposits of `a` form a finite set, no larger than
/// the number of ids handed out to `a`.
pub proof fn lemma_active_ids_bounded(m: VaultModel, a: Address)
    requires
        m.entries_ok(),
    ensures
        m.active_ids(a).finite(),
        m.active_ids(a).len() <= m.counter(a),
{
    let r = Set::<u32>::range(0, m.counter(a));
    <u32 as vstd::set_lib::FiniteRange>::range_properties(0, m.counter(a));
    assert(m.active_ids(a).subset_of(r)) by {
        assert forall|i: u32| m.active_ids(a).contains(i) implies r.contains(i) by {
            if m.deposits.contains_key((a, i)) {
            } else {
                assert(m.ledger_deposits.contains_key((a, i)));
            }
        }
    }
    vstd::set_lib::lemma_set_subset_finite(r, m.active_ids(a));
    vstd::set_lib::lemma_len_subset(m.active_ids(a), r);
}

/// A finite set of active ids is empty exactly when the depositor holds no
/// active deposit.
pub proof fn lemma_has_active_iff_nonempty(m: VaultModel, a: Address)
    requires
        m.active_ids(a).finite(),
    ensures
        m.has_active(a) <==> m.active_ids(a).len() > 0,
{
    if m.has_active(a) {
        let i = choose|i: u32| #[trigger] m.is_active(a, i);
        assert(m.active_ids(a).contains(i));
        vstd::set_lib::lemma_set_empty_equivalency_len(m.active_ids(a));
    } else {
        assert(m.active_ids(a) =~= Set::empty());
    }
}

impl View for Storage {
    type V = VaultModel;

    closed spec fn view(&self) -> VaultModel {
        VaultModel {
            admin: self.admin,
            pending_admin: self.pending_admin,
            initialized: self.initialized,
            fee_recipient: self.fee_recipient,
            max_deposit: self.max_deposit,
            max_lock_secs: self.max_lock_secs,
            paused: self.paused,
            max_penalty_bps: self.max_penalty_bps,
            min_cancel_fee: self.min_cancel_fee,
            deposits: Map::new(
                |k: (Address, u32)| self.deposits@.contains_key(deposit_key(k.0, k.1)),
                |k: (Address, u32)| self.deposits@[deposit_key(k.0, k.1)],
            ),
            ledger_deposits: Map::new(
                |k: (Address, u32)| self.ledger_deposits@.contains_key(deposit_key(k.0, k.1)),
                |k: (Address, u32)| self.ledger_deposits@[deposit_key(k.0, k.1)],
            ),
            counters: Map::new(
                |a: Address| self.counters@.contains_key(a.id),
                |a: Address| self.counters@[a.id],
            ),
            depositors: self.depositor_slots@,
            index_list: self.index_list@,
            frozen: Set::new(|a: Address| self.frozen@.contains_key(a.id)),
            frozen_tokens: Set::new(|a: Address| self.frozen_tokens@.contains_key(a.id)),
        }
    }
}

impl Storage {
    /// The stored active-deposit count of `a` (absent means 0).
    closed spec fn active_count(&self, a: Address) -> nat {
        if self.active_counts@.contains_key(a.id) {
            self.active_counts@[a.id] as nat
        } else {
            0
        }
    }

    /// The stored representation matches the model: the active-deposit
    /// counts are exact and the slot index inverts the depositor list.
    pub closed spec fn wf(&self) -> bool {
        &&& self@.basic_inv()
        &&& forall|a: Address| #[trigger] self.active_count(a) == self@.active_ids(a).len()
        &&& forall|id: u64| #[trigger]
            self.slot_index@.contains_key(id) ==> {
                &&& self.slot_index@[id] < self.depositor_slots@.len()
                &&& self.depositor_slots@[self.slot_index@[id] as int].id == id
            }
        &&& forall|i: int|
            0 <= i < self.depositor_slots@.len() ==> {
                &&& #[trigger] self.slot_index@.contains_key(self.depositor_slots@[i].id)
                &&& self.slot_index@[self.depositor_slots@[i].id] == i
            }
    }

    /// Empty storage.
    pub fn new() -> (s: Storage)
        ensures
            s.wf(),
            s@ == VaultModel::empty(),
    {
        let s = Storage {
            admin: None,
            pending_admin: None,
            initialized: false,
            fee_recipient: None,
            max_deposit: None,
            max_lock_secs: None,
            paused: false,
            max_penalty_bps: None,
            min_cancel_fee: None,
            deposits: HashMap::new(),
            ledger_deposits: HashMap::new(),
            counters: HashMap::new(),
            active_counts: HashMap::new(),
            depositor_slots: Vec::new(),
            slot_index: HashMap::new(),
            index_list: Vec::new(),
            frozen: HashMap::new(),
            frozen_tokens: HashMap::new(),
        };
        assert(s@.deposits =~= Map::empty());
        assert(s@.ledger_deposits =~= Map::empty());
        assert(s@.counters =~= Map::empty());
        assert(s@.frozen =~= Set::empty());
        assert(s@.frozen_tokens =~= Set::empty());
        assert forall|a: Address| #[trigger] s.active_count(a) == s@.active_ids(a).len() by {
            assert(s@.active_ids(a) =~= Set::empty());
        }
        s
    }
}

// ----------------------------------------------------------------
//  Deposit counter / id listings
// ----------------------------------------------------------------

/// Hands out the next deposit id of `depositor` (starting at 0) and advances
/// the counter; ids are never reused.
pub fn next_deposit_id(env: &mut Env, depositor: &Address) -> (id: u32)
    requires
        old(env).storage.wf(),
        old(env)@.storage.counter(*depositor) < u32::MAX,
    ensures
        final(env).storage.wf(),
        id == old(env)@.storage.counter(*depositor),
        final(env)@ == old(env)@.with_storage(
            old(env)@.storage.set_counter(*depositor, (id + 1) as u32),
        ),
{
    env.note_write();
    let id: u32 = match env.storage.counters.get(&depositor.id) {
        Some(c) => *c,
        None => 0,
    };
    env.storage.counters.insert(depositor.id, id + 1);
    proof {
        let ghost m0 = old(env)@.storage;
        assert(env.storage@.counters =~= m0.counters.insert(*depositor, (id + 1) as u32));
        assert(env.storage@ =~= m0.set_counter(*depositor, (id + 1) as u32));
        assert forall|a: Address| #[trigger] env.storage.active_count(a) == env.storage@.active_ids(a).len() by {
            assert(env.storage@.active_ids(a) =~= m0.active_ids(a));
            assert(old(env).storage.active_count(a) == m0.active_ids(a).len());
        }
    }
    id
}

/// Whether one more deposit of `depositor` fits the counters: its id can be
/// handed out and, if `depositor` is not listed yet, the depositor index has
/// room. A deposit that does not fit is not taken.
pub fn room_for_deposit(env: &Env, depositor: &Address) -> (b: bool)
    requires
        env.storage.wf(),
    ensures
        b == crate::rules::deposit_fits(env@.storage, *depositor),
{
    let id: u32 = match env.storage.counters.get(&depositor.id) {
        Some(c) => *c,
        None => 0,
    };
    let listed = env.storage.slot_index.contains_key(&depositor.id);
    proof {
        let m = env.storage@;
        if listed {
            let i = env.storage.slot_index@[depositor.id] as int;
            assert(m.depositors[i].id == depositor.id);
            assert(m.depositors[i] == *depositor);
            assert(m.depositors.contains(*depositor));
        }
        if m.depositors.contains(*depositor) {
            let i = choose|i: int| 0 <= i < m.depositors.len() && m.depositors[i] == *depositor;
            assert(env.storage.slot_index@.contains_key(env.storage.depositor_slots@[i].id));
        }
    }
    id < u32::MAX && (listed || env.storage.depositor_slots.len() < 0xffff_ffffusize)
}

/// Whether `depositor` holds at least one active deposit of either kind.
pub fn has_any_deposit(env: &Env, depositor: &Address) -> (b: bool)
    requires
        env.storage.wf(),
    ensures
        b == env@.storage.has_active(*depositor),
{
    let count: u32 = match env.storage.active_counts.get(&depositor.id) {
        Some(c) => *c,
        None => 0,
    };
    proof {
        assert(env.storage.active_count(*depositor) == env.storage@.active_ids(*depositor).len());
        lemma_active_ids_bounded(env.storage@, *depositor);
        lemma_has_active_iff_nonempty(env.storage@, *depositor);
    }
    count > 0
}

/// The active timestamp-locked deposit ids of `depositor`, ascending: a scan
/// over every id handed out so far.
pub fn get_deposit_ids(env: &Env, depositor: &Address) -> (ids: Vec<u32>)
    requires
        env.storage.wf(),
    ensures
        ids@ == env@.storage.time_ids(*depositor),
{
    let count: u32 = match env.storage.counters.get(&depositor.id) {
        Some(c) => *c,
        None => 0,
    };
    let mut ids: Vec<u32> = Vec::new();
    let mut i: u32 = 0;
    while i < count
        invariant
            i <= count,
            count == env@.storage.counter(*depositor),
            ids@ == env@.storage.time_ids_below(*depositor, i as nat),
        decreases count - i,
    {
        let k = key_of(depositor, i);
        if env.storage.deposits.contains_key(&k) {
            ids.push(i);
        }
        i = i + 1;
    }
    ids
}

/// The active ledger-locked deposit ids of `depositor`, ascending.
pub fn get_deposit_by_ledger_ids(env: &Env, depositor: &Address) -> (ids: Vec<u32>)
    requires
        env.storage.wf(),
    ensures
        ids@ == env@.storage.ledger_ids_below(*depositor, env@.storage.counter(*depositor) as nat),
{
    let count: u32 = match env.storage.counters.get(&depositor.id) {
        Some(c) => *c,
        None => 0,
    };
    let mut ids: Vec<u32> = Vec::new();
    let mut i: u32 = 0;
    while i < count
        invariant
            i <= count,
            count == env@.storage.counter(*depositor),
            ids@ == env@.storage.ledger_ids_below(*depositor, i as nat),
        decreases count - i,
    {
        let k = key_of(depositor, i);
        if env.storage.ledger_deposits.contains_key(&k) {
            ids.push(i);
        }
        i = i + 1;
    }
    ids
}


proof fn lemma_ledger_ids_below_len(m: VaultModel, a: Address, n: nat)
    ensures
        m.ledger_ids_below(a, n).len() <= n,
    decreases n,
{
    if n > 0 {
        lemma_ledger_ids_below_len(m, a, (n - 1) as nat);
    }
}

proof fn lemma_all_ids_below_len(m: VaultModel, a: Address, n: nat)
    ensures
        m.all_ids_below(a, n).len() <= n,
    decreases n,
{
    if n > 0 {
        lemma_all_ids_below_len(m, a, (n - 1) as nat);
    }
}

/// The smaller of two counts.
pub open spec fn min_u32(x: u32, y: u32) -> u32 {
    if x <= y {
        x
    } else {
        y
    }
}

/// The active ledger-locked deposit ids of `depositor` among the first
/// `max_results` ids handed out, ascending (a bounded scan).
pub fn get_deposit_by_ledger_ids_limited(env: &Env, depositor: &Address, max_results: u32) -> (ids: Vec<u32>)
    requires
        env.storage.wf(),
    ensures
        ids@ == env@.storage.ledger_ids_below(
            *depositor,
            min_u32(env@.storage.counter(*depositor), max_results) as nat,
        ),
{
    let count: u32 = match env.storage.counters.get(&depositor.id) {
        Some(c) => *c,
        None => 0,
    };
    let limit = if count <= max_results { count } else { max_results };
    let mut ids: Vec<u32> = Vec::new();
    let mut i: u32 = 0;
    while i < limit
        invariant_except_break
            i <= limit,
            ids@ == env@.storage.ledger_ids_below(*depositor, i as nat),
        invariant
            limit == min_u32(env@.storage.counter(*depositor), max_results),
        ensures
            ids@ == env@.storage.ledger_ids_below(*depositor, limit as nat),
        decreases limit - i,
    {
        let k = key_of(depositor, i);
        if env.storage.ledger_deposits.contains_key(&k) {
            ids.push(i);
            if ids.len() >= max_results as usize {
                proof {
                    lemma_ledger_ids_below_len(env@.storage, *depositor, (i + 1) as nat);
                }
                break;
            }
        }
        i = i + 1;
    }
    ids
}

/// The active deposit ids of `depositor` of either kind, ascending.
pub fn get_all_deposit_ids(env: &Env, depositor: &Address) -> (ids: Vec<u32>)
    requires
        env.storage.wf(),
    ensures
        ids@ == env@.storage.all_ids_below(*depositor, env@.storage.counter(*depositor) as nat),
{
    let count: u32 = match env.storage.counters.get(&depositor.id) {
        Some(c) => *c,
        None => 0,
    };
    let mut ids: Vec<u32> = Vec::new();
    let mut i: u32 = 0;
    while i < count
        invariant
            i <= count,
            count == env@.storage.counter(*depositor),
            ids@ == env@.storage.all_ids_below(*depositor, i as nat),
        decreases count - i,
    {
        let k = key_of(depositor, i);
        if env.storage.deposits.contains_key(&k) || env.storage.ledger_deposits.contains_key(&k) {
            ids.push(i);
        }
        i = i + 1;
    }
    ids
}

/// The active deposit ids of `depositor` of either kind among the first
/// `max_results` ids handed out, ascending (a bounded scan).
pub fn get_all_deposit_ids_limited(env: &Env, depositor: &Address, max_results: u32) -> (ids: Vec<u32>)
    requires
        env.storage.wf(),
    ensures
        ids@ == env@.storage.all_ids_below(
            *depositor,
            min_u32(env@.storage.counter(*depositor), max_results) as nat,
        ),
{
    let count: u32 = match env.storage.counters.get(&depositor.id) {
        Some(c) => *c,
        None => 0,
    };
    let limit = if count <= max_results { count } else { max_results };
    let mut ids: Vec<u32> = Vec::new();
    let mut i: u32 = 0;
    while i < limit
        invariant_except_break
            i <= limit,
            ids@ == env@.storage.all_ids_below(*depositor, i as nat),
        invariant
            limit == min_u32(env@.storage.counter(*depositor), max_results),
        ensures
            ids@ == env@.storage.all_ids_below(*depositor, limit as nat),
        decreases limit - i,
    {
        let k = key_of(depositor, i);
        if env.storage.deposits.contains_key(&k) || env.storage.ledger_deposits.contains_key(&k) {
            ids.push(i);
            if ids.len() >= max_results as usize {
                proof {
                    lemma_all_ids_below_len(env@.storage, *depositor, (i + 1) as nat);
                }
                break;
            }
        }
        i = i + 1;
    }
    ids
}


// ----------------------------------------------------------------
//  Deposits (timestamp-locked and ledger-locked)
// ----------------------------------------------------------------

impl Storage {
    /// Adds one to the active-deposit count of `a`.
    fn increment_active_count(&mut self, a: &Address)
        requires
            old(self).active_count(*a) < u32::MAX,
        ensures
            final(self).active_counts@ == old(self).active_counts@.insert(
                a.id,
                (old(self).active_count(*a) + 1) as u32,
            ),
            final(self).active_count(*a) == old(self).active_count(*a) + 1,
            forall|b: Address| b != *a ==> #[trigger] final(self).active_count(b) == old(self).active_count(b),
            final(self)@ == old(self)@,
            final(self).slot_index == old(self).slot_index,
            final(self).depositor_slots == old(self).depositor_slots,
    {
        let c: u32 = match self.active_counts.get(&a.id) {
            Some(c) => *c,
            None => 0,
        };
        self.active_counts.insert(a.id, c + 1);
    }

    /// Subtracts one from the active-deposit count of `a`.
    fn decrement_active_count(&mut self, a: &Address)
        requires
            old(self).active_count(*a) > 0,
        ensures
            final(self).active_count(*a) == old(self).active_count(*a) - 1,
            forall|b: Address| b != *a ==> #[trigger] final(self).active_count(b) == old(self).active_count(b),
            final(self)@ == old(self)@,
            final(self).slot_index == old(self).slot_index,
            final(self).depositor_slots == old(self).depositor_slots,
    {
        let c: u32 = match self.active_counts.get(&a.id) {
            Some(c) => *c,
            None => 0,
        };
        self.active_counts.insert(a.id, c - 1);
    }
}

/// The conditions a stored deposit of `depositor` under id `i` must meet.
pub open spec fn entry_fits(m: VaultModel, depositor: Address, i: u32, owner: Address, amount: i128, penalty_bps: u32) -> bool {
    &&& owner == depositor
    &&& amount > 0
    &&& penalty_bps <= 10_000
    &&& i < m.counter(depositor)
}

/// Stores the timestamp-locked deposit `entry` under `(depositor, deposit_id)`.
pub fn set_deposit(env: &mut Env, depositor: &Address, deposit_id: u32, entry: &VaultEntry)
    requires
        old(env).storage.wf(),
        entry_fits(old(env)@.storage, *depositor, deposit_id, entry.depositor, entry.amount, entry.penalty_bps),
        !old(env)@.storage.ledger_deposits.contains_key((*depositor, deposit_id)),
    ensures
        final(env).storage.wf(),
        final(env)@ == old(env)@.with_storage(old(env)@.storage.insert_deposit(*depositor, deposit_id, *entry)),
{
    env.note_write();
    let ghost m0 = env.storage@;
    let k = key_of(depositor, deposit_id);
    let prev = env.storage.deposits.insert(k, *entry);
    proof {
        lemma_deposit_keys_injective();
        assert(env.storage@.deposits =~= m0.deposits.insert((*depositor, deposit_id), *entry));
        assert(env.storage@ =~= m0.insert_deposit(*depositor, deposit_id, *entry));
        lemma_active_ids_bounded(m0, *depositor);
        lemma_active_ids_bounded(env.storage@, *depositor);
    }
    if prev.is_none() {
        proof {
            let s0 = m0.active_ids(*depositor);
            assert(!s0.contains(deposit_id));
            assert(env.storage@.active_ids(*depositor) =~= s0.insert(deposit_id));
            assert(s0.insert(deposit_id).len() == s0.len() + 1);
            assert(old(env).storage.active_count(*depositor) == s0.len());
        }
        env.storage.increment_active_count(depositor);
    }
    proof {
        let m1 = env.storage@;
        assert forall|a: Address| #[trigger] env.storage.active_count(a) == m1.active_ids(a).len() by {
            if a != *depositor {
                assert(m1.active_ids(a) =~= m0.active_ids(a));
                assert(old(env).storage.active_count(a) == m0.active_ids(a).len());
            } else if prev.is_some() {
                assert(m1.active_ids(a) =~= m0.active_ids(a));
                assert(old(env).storage.active_count(a) == m0.active_ids(a).len());
            }
        }
    }
}

/// The timestamp-locked deposit `(depositor, deposit_id)`, if any.
pub fn get_deposit(env: &Env, depositor: &Address, deposit_id: u32) -> (r: Option<VaultEntry>)
    requires
        env.storage.wf(),
    ensures
        r == env@.storage.deposit_of(*depositor, deposit_id),
{
    let k = key_of(depositor, deposit_id);
    match env.storage.deposits.get(&k) {
        Some(e) => Some(*e),
        None => None,
    }
}

/// The timestamp-locked deposit `(depositor, deposit_id)`, if any; used by
/// views and by paths that remove the entry right after reading it.
pub fn get_deposit_readonly(env: &Env, depositor: &Address, deposit_id: u32) -> (r: Option<VaultEntry>)
    requires
        env.storage.wf(),
    ensures
        r == env@.storage.deposit_of(*depositor, deposit_id),
{
    get_deposit(env, depositor, deposit_id)
}

/// Removes the timestamp-locked deposit `(depositor, deposit_id)`.
pub fn remove_deposit(env: &mut Env, depositor: &Address, deposit_id: u32)
    requires
        old(env).storage.wf(),
    ensures
        final(env).storage.wf(),
        final(env)@ == old(env)@.with_storage(old(env)@.storage.remove_deposit(*depositor, deposit_id)),
{
    env.note_write();
    let ghost m0 = env.storage@;
    let k = key_of(depositor, deposit_id);
    let prev = env.storage.deposits.remove(&k);
    proof {
        lemma_deposit_keys_injective();
        assert(env.storage@.deposits =~= m0.deposits.remove((*depositor, deposit_id)));
        assert(env.storage@ =~= m0.remove_deposit(*depositor, deposit_id));
        lemma_active_ids_bounded(m0, *depositor);
    }
    if prev.is_some() {
        proof {
            let s0 = m0.active_ids(*depositor);
            assert(m0.deposits.contains_key((*depositor, deposit_id)));
            assert(!m0.ledger_deposits.contains_key((*depositor, deposit_id)));
            assert(s0.contains(deposit_id));
            assert(env.storage@.active_ids(*depositor) =~= s0.remove(deposit_id));
            assert(s0.remove(deposit_id).len() == s0.len() - 1);
            assert(old(env).storage.active_count(*depositor) == s0.len());
        }
        env.storage.decrement_active_count(depositor);
    }
    proof {
        let m1 = env.storage@;
        assert forall|a: Address| #[trigger] env.storage.active_count(a) == m1.active_ids(a).len() by {
            if a != *depositor || prev.is_none() {
                assert(m1.active_ids(a) =~= m0.active_ids(a));
                assert(old(env).storage.active_count(a) == m0.active_ids(a).len());
            }
        }
    }
}

/// Stores the ledger-locked deposit `entry` under `(depositor, deposit_id)`.
pub fn set_deposit_by_ledger(env: &mut Env, depositor: &Address, deposit_id: u32, entry: &LedgerVaultEntry)
    requires
        old(env).storage.wf(),
        entry_fits(old(env)@.storage, *depositor, deposit_id, entry.depositor, entry.amount, entry.penalty_bps),
        !old(env)@.storage.deposits.contains_key((*depositor, deposit_id)),
    ensures
        final(env).storage.wf(),
        final(env)@ == old(env)@.with_storage(old(env)@.storage.insert_ledger_deposit(*depositor, deposit_id, *entry)),
{
    env.note_write();
    let ghost m0 = env.storage@;
    let k = key_of(depositor, deposit_id);
    let prev = env.storage.ledger_deposits.insert(k, *entry);
    proof {
        lemma_deposit_keys_injective();
        assert(env.storage@.ledger_deposits =~= m0.ledger_deposits.insert((*depositor, deposit_id), *entry));
        assert(env.storage@ =~= m0.insert_ledger_deposit(*depositor, deposit_id, *entry));
        lemma_active_ids_bounded(m0, *depositor);
        lemma_active_ids_bounded(env.storage@, *depositor);
    }
    if prev.is_none() {
        proof {
            let s0 = m0.active_ids(*depositor);
            assert(!s0.contains(deposit_id));
            assert(env.storage@.active_ids(*depositor) =~= s0.insert(deposit_id));
            assert(s0.insert(deposit_id).len() == s0.len() + 1);
            assert(old(env).storage.active_count(*depositor) == s0.len());
        }
        env.storage.increment_active_count(depositor);
    }
    proof {
        let m1 = env.storage@;
        assert forall|a: Address| #[trigger] env.storage.active_count(a) == m1.active_ids(a).len() by {
            if a != *depositor || prev.is_some() {
                assert(m1.active_ids(a) =~= m0.active_ids(a));
                assert(old(env).storage.active_count(a) == m0.active_ids(a).len());
            }
        }
    }
}

/// The ledger-locked deposit `(depositor, deposit_id)`, if any.
pub fn get_deposit_by_ledger_readonly(env: &Env, depositor: &Address, deposit_id: u32) -> (r: Option<LedgerVaultEntry>)
    requires
        env.storage.wf(),
    ensures
        r == env@.storage.ledger_deposit_of(*depositor, deposit_id),
{
    let k = key_of(depositor, deposit_id);
    match env.storage.ledger_deposits.get(&k) {
        Some(e) => Some(*e),
        None => None,
    }
}

/// Removes the ledger-locked deposit `(depositor, deposit_id)`.
pub fn remove_deposit_by_ledger(env: &mut Env, depositor: &Address, deposit_id: u32)
    requires
        old(env).storage.wf(),
    ensures
        final(env).storage.wf(),
        final(env)@ == old(env)@.with_storage(old(env)@.storage.remove_ledger_deposit(*depositor, deposit_id)),
{
    env.note_write();
    let ghost m0 = env.storage@;
    let k = key_of(depositor, deposit_id);
    let prev = env.storage.ledger_deposits.remove(&k);
    proof {
        lemma_deposit_keys_injective();
        assert(env.storage@.ledger_deposits =~= m0.ledger_deposits.remove((*depositor, deposit_id)));
        assert(env.storage@ =~= m0.remove_ledger_deposit(*depositor, deposit_id));
        lemma_active_ids_bounded(m0, *depositor);
    }
    if prev.is_some() {
        proof {
            let s0 = m0.active_ids(*depositor);
            assert(s0.contains(deposit_id));
            assert(env.storage@.active_ids(*depositor) =~= s0.remove(deposit_id));
            assert(s0.remove(deposit_id).len() == s0.len() - 1);
            assert(old(env).storage.active_count(*depositor) == s0.len());
        }
        env.storage.decrement_active_count(depositor);
    }
    proof {
        let m1 = env.storage@;
        assert forall|a: Address| #[trigger] env.storage.active_count(a) == m1.active_ids(a).len() by {
            if a != *depositor || prev.is_none() {
                assert(m1.active_ids(a) =~= m0.active_ids(a));
                assert(old(env).storage.active_count(a) == m0.active_ids(a).len());
            }
        }
    }
}


// ----------------------------------------------------------------
//  Depositor index
// ----------------------------------------------------------------

/// An address listed in the slot index is the one in its slot.
proof fn lemma_slot_index_lookup(s: &Storage, a: Address)
    requires
        s.wf(),
    ensures
        s.slot_index@.contains_key(a.id) <==> s@.depositors.contains(a),
        s.slot_index@.contains_key(a.id) ==> {
            &&& s.slot_index@[a.id] < s@.depositors.len()
            &&& s@.depositors[s.slot_index@[a.id] as int] == a
            &&& s@.slot_of(a) == s.slot_index@[a.id] as int
        },
{
    if s.slot_index@.contains_key(a.id) {
        let i = s.slot_index@[a.id] as int;
        assert(s.depositor_slots@[i].id == a.id);
        assert(s@.depositors[i] == a);
        assert(s@.depositors.contains(a));
        let j = s@.slot_of(a);
        assert(0 <= j < s@.depositors.len() && s@.depositors[j] == a);
        assert(s@.depositors.no_duplicates());
    }
    if s@.depositors.contains(a) {
        let i = choose|i: int| 0 <= i < s@.depositors.len() && s@.depositors[i] == a;
        assert(s.slot_index@.contains_key(s.depositor_slots@[i].id));
    }
}

/// The address list kept under its own key by the index helpers; empty
/// until `add_to_depositor_index` is called.
pub fn get_depositor_index(env: &Env) -> (list: Vec<Address>)
    ensures
        list@ == env@.storage.index_list,
{
    env.storage.index_list.clone()
}

/// Appends `depositor` to the address list of `get_depositor_index` (an
/// address may appear more than once).
pub fn add_to_depositor_index(env: &mut Env, depositor: &Address)
    requires
        old(env).storage.wf(),
    ensures
        final(env).storage.wf(),
        final(env)@ == old(env)@.with_storage(
            VaultModel { index_list: old(env)@.storage.index_list.push(*depositor), ..old(env)@.storage },
        ),
{
    env.note_write();
    let ghost s0 = env.storage;
    env.storage.index_list.push(*depositor);
    proof {
        assert(env.storage@ =~= VaultModel { index_list: s0@.index_list.push(*depositor), ..s0@ });
        assert forall|a: Address| #[trigger] env.storage.active_count(a) == env.storage@.active_ids(a).len() by {
            assert(env.storage@.active_ids(a) =~= s0@.active_ids(a));
            assert(s0.active_count(a) == s0@.active_ids(a).len());
        }
    }
}

/// The test that keeps every address but `d`.
pub open spec fn other_than(d: Address) -> spec_fn(Address) -> bool {
    |a: Address| a != d
}

/// Drops every occurrence of `depositor` from the address list of
/// `get_depositor_index`, keeping the others in order.
pub fn remove_from_depositor_index(env: &mut Env, depositor: &Address)
    requires
        old(env).storage.wf(),
    ensures
        final(env).storage.wf(),
        final(env)@ == old(env)@.with_storage(
            VaultModel {
                index_list: old(env)@.storage.index_list.filter(other_than(*depositor)),
                ..old(env)@.storage
            },
        ),
{
    env.note_write();
    let ghost s0 = env.storage;
    let ghost keep = other_than(*depositor);
    let n = env.storage.index_list.len();
    let mut kept: Vec<Address> = Vec::new();
    let mut i: usize = 0;
    while i < n
        invariant
            i <= n,
            n == s0.index_list@.len(),
            env.storage == s0,
            keep == other_than(*depositor),
            kept@ == s0.index_list@.subrange(0, i as int).filter(keep),
        decreases n - i,
    {
        let a = env.storage.index_list[i];
        let ghost next = s0.index_list@.subrange(0, i + 1);
        let ghost before = kept@;
        if a.id != depositor.id {
            kept.push(a);
        }
        proof {
            assert(next.drop_last() =~= s0.index_list@.subrange(0, i as int));
            assert(next.last() == a);
            reveal(Seq::filter);
            assert(next.filter(keep) == (if keep(a) { before.push(a) } else { before }));
        }
        i = i + 1;
    }
    proof {
        assert(s0.index_list@.subrange(0, n as int) =~= s0.index_list@);
    }
    env.storage.index_list = kept;
    proof {
        assert(env.storage@ =~= VaultModel { index_list: s0@.index_list.filter(keep), ..s0@ });
        assert forall|a: Address| #[trigger] env.storage.active_count(a) == env.storage@.active_ids(a).len() by {
            assert(env.storage@.active_ids(a) =~= s0@.active_ids(a));
            assert(s0.active_count(a) == s0@.active_ids(a).len());
        }
    }
}

/// Lists `depositor` in the depositor index (a no-op when it is listed).
pub fn add_depositor(env: &mut Env, depositor: &Address)
    requires
        old(env).storage.wf(),
        !old(env)@.storage.depositors.contains(*depositor) ==> old(env)@.storage.depositors.len() < u32::MAX,
    ensures
        final(env).storage.wf(),
        final(env)@ == old(env)@.with_storage(old(env)@.storage.add_depositor(*depositor)),
{
    env.note_write();
    proof {
        lemma_slot_index_lookup(&env.storage, *depositor);
    }
    if env.storage.slot_index.contains_key(&depositor.id) {
        return;
    }
    let ghost m0 = env.storage@;
    let ghost s0 = env.storage.depositor_slots@;
    let ghost idx0 = env.storage.slot_index@;
    let count = env.storage.depositor_slots.len() as u32;
    env.storage.depositor_slots.push(*depositor);
    env.storage.slot_index.insert(depositor.id, count);
    proof {
        assert(env.storage@ =~= m0.add_depositor(*depositor));
        let s1 = env.storage.depositor_slots@;
        let idx1 = env.storage.slot_index@;
        assert forall|i: int, j: int| 0 <= i < s1.len() && 0 <= j < s1.len() && i != j implies s1[i] != s1[j] by {
            if i < s0.len() && j < s0.len() {
                assert(m0.depositors.no_duplicates());
            } else if i < s0.len() {
                assert(s0.contains(s0[i]));
            } else {
                assert(s0.contains(s0[j]));
            }
        }
        assert forall|a: Address| #[trigger] env.storage.active_count(a) == env.storage@.active_ids(a).len() by {
            assert(env.storage@.active_ids(a) =~= m0.active_ids(a));
            assert(old(env).storage.active_count(a) == m0.active_ids(a).len());
        }
        assert forall|id: u64| #[trigger] idx1.contains_key(id) implies {
            &&& idx1[id] < s1.len()
            &&& s1[idx1[id] as int].id == id
        } by {
            if id != depositor.id {
                assert(idx0.contains_key(id));
            }
        }
        assert forall|i: int| 0 <= i < s1.len() implies {
            &&& #[trigger] idx1.contains_key(s1[i].id)
            &&& idx1[s1[i].id] == i
        } by {
            if i < s0.len() {
                assert(idx0.contains_key(s0[i].id));
                if s0[i].id == depositor.id {
                    assert(s0[i] == *depositor);
                    assert(s0.contains(*depositor));
                }
            }
        }
    }
}

/// Removes `depositor` from the depositor index once it holds no active
/// deposit; the last slot moves into the freed one.
pub fn remove_depositor(env: &mut Env, depositor: &Address)
    requires
        old(env).storage.wf(),
    ensures
        final(env).storage.wf(),
        final(env)@ == old(env)@.with_storage(old(env)@.storage.remove_depositor(*depositor)),
{
    env.note_write();
    if has_any_deposit(env, depositor) {
        return;
    }
    proof {
        lemma_slot_index_lookup(&env.storage, *depositor);
    }
    let count = env.storage.depositor_slots.len();
    if count == 0 {
        return;
    }
    let slot: u32 = match env.storage.slot_index.get(&depositor.id) {
        Some(s) => *s,
        None => {
            return;
        },
    };
    let ghost m0 = env.storage@;
    let ghost s0 = env.storage.depositor_slots@;
    let ghost idx0 = env.storage.slot_index@;
    let last = count - 1;
    let ghost last_addr = s0[last as int];
    if slot as usize != last {
        let moved = env.storage.depositor_slots[last];
        env.storage.depositor_slots.set(slot as usize, moved);
        env.storage.slot_index.insert(moved.id, slot);
    }
    env.storage.depositor_slots.pop();
    env.storage.slot_index.remove(&depositor.id);
    proof {
        let s1 = env.storage.depositor_slots@;
        let idx1 = env.storage.slot_index@;
        assert(s1 =~= s0.update(slot as int, s0[last as int]).drop_last());
        assert(env.storage@ =~= m0.remove_depositor(*depositor));
        assert(m0.depositors.no_duplicates());
        assert(last_addr.id != depositor.id || slot as int == last as int) by {
            if last_addr.id == depositor.id {
                assert(last_addr == *depositor);
            }
        }
        assert forall|i: int, j: int| 0 <= i < s1.len() && 0 <= j < s1.len() && i != j implies s1[i] != s1[j] by {
            if i == slot as int {
                assert(s1[i] == s0[last as int]);
            } else if j == slot as int {
                assert(s1[j] == s0[last as int]);
            }
        }
        assert forall|a: Address| #[trigger] env.storage.active_count(a) == env.storage@.active_ids(a).len() by {
            assert(env.storage@.active_ids(a) =~= m0.active_ids(a));
            assert(old(env).storage.active_count(a) == m0.active_ids(a).len());
        }
        assert forall|id: u64| #[trigger] idx1.contains_key(id) implies {
            &&& idx1[id] < s1.len()
            &&& s1[idx1[id] as int].id == id
        } by {
            assert(id != depositor.id);
            if id == last_addr.id && slot as int != last as int {
                assert(idx1[id] == slot);
            } else {
                assert(idx0.contains_key(id));
                let j = idx0[id] as int;
                assert(s0[j].id == id);
                assert(j != slot as int);
                assert(j != last as int);
            }
        }
        assert forall|i: int| 0 <= i < s1.len() implies {
            &&& #[trigger] idx1.contains_key(s1[i].id)
            &&& idx1[s1[i].id] == i
        } by {
            if i == slot as int {
                assert(s1[i] == last_addr);
            } else {
                assert(s1[i] == s0[i]);
                assert(idx0.contains_key(s0[i].id));
                assert(s0[i] != s0[last as int]);
                assert(s0[i] != s0[slot as int]);
                assert(s0[i].id != depositor.id);
                assert(s0[i].id != last_addr.id);
            }
        }
    }
}

/// The number of addresses in the depositor index.
pub fn get_depositor_count(env: &Env) -> (n: u32)
    requires
        env.storage.wf(),
    ensures
        n == env@.storage.depositors.len(),
{
    env.storage.depositor_slots.len() as u32
}

/// The depositors in slots `offset ..`, at most `limit` of them.
pub fn get_depositors_page(env: &Env, offset: u32, limit: u32) -> (page: Vec<Address>)
    requires
        env.storage.wf(),
    ensures
        page@ == env@.storage.depositors_page(offset, limit),
{
    let count = env.storage.depositor_slots.len() as u32;
    let sum = offset.saturating_add(limit);
    let end = if sum < count { sum } else { count };
    let mut page: Vec<Address> = Vec::new();
    let mut i: u32 = offset;
    while i < end
        invariant
            offset <= i,
            i <= end || i == offset,
            end <= count,
            count == env@.storage.depositors.len(),
            page@.len() == i - offset,
            forall|k: int| 0 <= k < page@.len() ==> page@[k] == env@.storage.depositors[offset + k],
        decreases end - i,
    {
        page.push(env.storage.depositor_slots[i as usize]);
        i = i + 1;
    }
    proof {
        if offset < end {
            assert(page@ =~= env@.storage.depositors_page(offset, limit));
        } else {
            assert(page@ =~= Seq::<Address>::empty());
        }
    }
    page
}


/// Changing only admin, flag or freeze fields keeps the storage well formed.
proof fn lemma_wf_frame(s0: &Storage, s1: &Storage)
    requires
        s0.wf(),
        s1.deposits == s0.deposits,
        s1.ledger_deposits == s0.ledger_deposits,
        s1.counters == s0.counters,
        s1.active_counts == s0.active_counts,
        s1.depositor_slots == s0.depositor_slots,
        s1.slot_index == s0.slot_index,
        s1.max_penalty_bps == s0.max_penalty_bps || (s1.max_penalty_bps matches Some(b) && b <= 10_000),
        s1.min_cancel_fee == s0.min_cancel_fee || (s1.min_cancel_fee matches Some(f) && f >= 0),
    ensures
        s1.wf(),
{
    assert(s1@.deposits =~= s0@.deposits);
    assert(s1@.ledger_deposits =~= s0@.ledger_deposits);
    assert(s1@.counters =~= s0@.counters);
    assert(s1@.entries_ok());
    assert(s1@.basic_inv());
    assert forall|a: Address| #[trigger] s1.active_count(a) == s1@.active_ids(a).len() by {
        assert(s1@.active_ids(a) =~= s0@.active_ids(a));
        assert(s0.active_count(a) == s0@.active_ids(a).len());
    }
}

// ----------------------------------------------------------------
//  Admin, configuration and flags
// ----------------------------------------------------------------

/// Stores the admin address.
pub fn set_admin(env: &mut Env, admin: &Address)
    requires
        old(env).storage.wf(),
    ensures
        final(env).storage.wf(),
        final(env)@ == old(env)@.with_storage(VaultModel { admin: Some(*admin), ..old(env)@.storage }),
{
    env.note_write();
    let ghost s0 = env.storage;
    env.storage.admin = Some(*admin);
    proof {
        lemma_wf_frame(&s0, &env.storage);
        assert(env.storage@ =~= VaultModel { admin: Some(*admin), ..s0@ });
    }
}

/// Removes the admin: the vault becomes trustless.
pub fn remove_admin(env: &mut Env)
    requires
        old(env).storage.wf(),
    ensures
        final(env).storage.wf(),
        final(env)@ == old(env)@.with_storage(VaultModel { admin: None, ..old(env)@.storage }),
{
    env.note_write();
    let ghost s0 = env.storage;
    env.storage.admin = None;
    proof {
        lemma_wf_frame(&s0, &env.storage);
        assert(env.storage@ =~= VaultModel { admin: None, ..s0@ });
    }
}

/// Records the admin nominated by a two-step transfer.
pub fn set_pending_admin(env: &mut Env, pending: &Address)
    requires
        old(env).storage.wf(),
    ensures
        final(env).storage.wf(),
        final(env)@ == old(env)@.with_storage(VaultModel { pending_admin: Some(*pending), ..old(env)@.storage }),
{
    env.note_write();
    let ghost s0 = env.storage;
    env.storage.pending_admin = Some(*pending);
    proof {
        lemma_wf_frame(&s0, &env.storage);
        assert(env.storage@ =~= VaultModel { pending_admin: Some(*pending), ..s0@ });
    }
}

/// Clears the pending admin.
pub fn remove_pending_admin(env: &mut Env)
    requires
        old(env).storage.wf(),
    ensures
        final(env).storage.wf(),
        final(env)@ == old(env)@.with_storage(VaultModel { pending_admin: None, ..old(env)@.storage }),
{
    env.note_write();
    let ghost s0 = env.storage;
    env.storage.pending_admin = None;
    proof {
        lemma_wf_frame(&s0, &env.storage);
        assert(env.storage@ =~= VaultModel { pending_admin: None, ..s0@ });
    }
}

/// Marks the vault as initialized; never undone.
pub fn set_initialized(env: &mut Env)
    requires
        old(env).storage.wf(),
    ensures
        final(env).storage.wf(),
        final(env)@ == old(env)@.with_storage(VaultModel { initialized: true, ..old(env)@.storage }),
{
    env.note_write();
    let ghost s0 = env.storage;
    env.storage.initialized = true;
    proof {
        lemma_wf_frame(&s0, &env.storage);
        assert(env.storage@ =~= VaultModel { initialized: true, ..s0@ });
    }
}

/// Stores the deployment's maximum deposit.
pub fn set_max_deposit(env: &mut Env, v: i128)
    requires
        old(env).storage.wf(),
    ensures
        final(env).storage.wf(),
        final(env)@ == old(env)@.with_storage(VaultModel { max_deposit: Some(v), ..old(env)@.storage }),
{
    env.note_write();
    let ghost s0 = env.storage;
    env.storage.max_deposit = Some(v);
    proof {
        lemma_wf_frame(&s0, &env.storage);
        assert(env.storage@ =~= VaultModel { max_deposit: Some(v), ..s0@ });
    }
}

/// Stores the deployment's maximum lock duration in seconds.
pub fn set_max_lock_secs(env: &mut Env, v: u64)
    requires
        old(env).storage.wf(),
    ensures
        final(env).storage.wf(),
        final(env)@ == old(env)@.with_storage(VaultModel { max_lock_secs: Some(v), ..old(env)@.storage }),
{
    env.note_write();
    let ghost s0 = env.storage;
    env.storage.max_lock_secs = Some(v);
    proof {
        lemma_wf_frame(&s0, &env.storage);
        assert(env.storage@ =~= VaultModel { max_lock_secs: Some(v), ..s0@ });
    }
}

/// Stores the receiver of cancellation penalties.
pub fn set_fee_recipient(env: &mut Env, recipient: &Address)
    requires
        old(env).storage.wf(),
    ensures
        final(env).storage.wf(),
        final(env)@ == old(env)@.with_storage(VaultModel { fee_recipient: Some(*recipient), ..old(env)@.storage }),
{
    env.note_write();
    let ghost s0 = env.storage;
    env.storage.fee_recipient = Some(*recipient);
    proof {
        lemma_wf_frame(&s0, &env.storage);
        assert(env.storage@ =~= VaultModel { fee_recipient: Some(*recipient), ..s0@ });
    }
}

/// Sets the pause flag: while it is set, new deposits are refused.
pub fn set_paused(env: &mut Env, paused: bool)
    requires
        old(env).storage.wf(),
    ensures
        final(env).storage.wf(),
        final(env)@ == old(env)@.with_storage(VaultModel { paused, ..old(env)@.storage }),
{
    env.note_write();
    let ghost s0 = env.storage;
    env.storage.paused = paused;
    proof {
        lemma_wf_frame(&s0, &env.storage);
        assert(env.storage@ =~= VaultModel { paused, ..s0@ });
    }
}

/// Stores the cap on a deposit's penalty, in basis points.
pub fn set_max_penalty_bps(env: &mut Env, bps: u32)
    requires
        old(env).storage.wf(),
        bps <= 10_000,
    ensures
        final(env).storage.wf(),
        final(env)@ == old(env)@.with_storage(VaultModel { max_penalty_bps: Some(bps), ..old(env)@.storage }),
{
    env.note_write();
    let ghost s0 = env.storage;
    env.storage.max_penalty_bps = Some(bps);
    proof {
        lemma_wf_frame(&s0, &env.storage);
        assert(env.storage@ =~= VaultModel { max_penalty_bps: Some(bps), ..s0@ });
    }
}

/// Stores the minimum cancellation fee in token units.
pub fn set_min_cancel_fee(env: &mut Env, fee: i128)
    requires
        old(env).storage.wf(),
        fee >= 0,
    ensures
        final(env).storage.wf(),
        final(env)@ == old(env)@.with_storage(VaultModel { min_cancel_fee: Some(fee), ..old(env)@.storage }),
{
    env.note_write();
    let ghost s0 = env.storage;
    env.storage.min_cancel_fee = Some(fee);
    proof {
        lemma_wf_frame(&s0, &env.storage);
        assert(env.storage@ =~= VaultModel { min_cancel_fee: Some(fee), ..s0@ });
    }
}

/// Freezes `depositor`: its deposits, withdrawals and cancellations are refused.
pub fn set_frozen(env: &mut Env, depositor: &Address)
    requires
        old(env).storage.wf(),
    ensures
        final(env).storage.wf(),
        final(env)@ == old(env)@.with_storage(VaultModel { frozen: old(env)@.storage.frozen.insert(*depositor), ..old(env)@.storage }),
{
    env.note_write();
    let ghost s0 = env.storage;
    env.storage.frozen.insert(depositor.id, ());
    proof {
        lemma_wf_frame(&s0, &env.storage);
        assert(env.storage@ =~= VaultModel { frozen: s0@.frozen.insert(*depositor), ..s0@ });
    }
}

/// Unfreezes `depositor`.
pub fn remove_frozen(env: &mut Env, depositor: &Address)
    requires
        old(env).storage.wf(),
    ensures
        final(env).storage.wf(),
        final(env)@ == old(env)@.with_storage(VaultModel { frozen: old(env)@.storage.frozen.remove(*depositor), ..old(env)@.storage }),
{
    env.note_write();
    let ghost s0 = env.storage;
    env.storage.frozen.remove(&depositor.id);
    proof {
        lemma_wf_frame(&s0, &env.storage);
        assert(env.storage@ =~= VaultModel { frozen: s0@.frozen.remove(*depositor), ..s0@ });
    }
}

/// Freezes `token`: new deposits of it are refused.
pub fn set_token_frozen(env: &mut Env, token: &Address)
    requires
        old(env).storage.wf(),
    ensures
        final(env).storage.wf(),
        final(env)@ == old(env)@.with_storage(VaultModel { frozen_tokens: old(env)@.storage.frozen_tokens.insert(*token), ..old(env)@.storage }),
{
    env.note_write();
    let ghost s0 = env.storage;
    env.storage.frozen_tokens.insert(token.id, ());
    proof {
        lemma_wf_frame(&s0, &env.storage);
        assert(env.storage@ =~= VaultModel { frozen_tokens: s0@.frozen_tokens.insert(*token), ..s0@ });
    }
}

/// Unfreezes `token`.
pub fn remove_token_frozen(env: &mut Env, token: &Address)
    requires
        old(env).storage.wf(),
    ensures
        final(env).storage.wf(),
        final(env)@ == old(env)@.with_storage(VaultModel { frozen_tokens: old(env)@.storage.frozen_tokens.remove(*token), ..old(env)@.storage }),
{
    env.note_write();
    let ghost s0 = env.storage;
    env.storage.frozen_tokens.remove(&token.id);
    proof {
        lemma_wf_frame(&s0, &env.storage);
        assert(env.storage@ =~= VaultModel { frozen_tokens: s0@.frozen_tokens.remove(*token), ..s0@ });
    }
}

/// The admin, or `None` once renounced.
pub fn get_admin(env: &Env) -> (r: Option<Address>)
    ensures
        r == env@.storage.admin,
{
    env.storage.admin
}

/// The admin nominated by a pending transfer, if any.
pub fn get_pending_admin(env: &Env) -> (r: Option<Address>)
    ensures
        r == env@.storage.pending_admin,
{
    env.storage.pending_admin
}

/// Whether `initialize` has run.
pub fn is_initialized(env: &Env) -> (r: bool)
    ensures
        r == env@.storage.initialized,
{
    env.storage.initialized
}

/// The deployment's maximum deposit, if configured.
pub fn get_max_deposit(env: &Env) -> (r: Option<i128>)
    ensures
        r == env@.storage.max_deposit,
{
    env.storage.max_deposit
}

/// The deployment's maximum lock duration, if configured.
pub fn get_max_lock_secs(env: &Env) -> (r: Option<u64>)
    ensures
        r == env@.storage.max_lock_secs,
{
    env.storage.max_lock_secs
}

/// The receiver of cancellation penalties, if set.
pub fn get_fee_recipient(env: &Env) -> (r: Option<Address>)
    ensures
        r == env@.storage.fee_recipient,
{
    env.storage.fee_recipient
}

/// Whether new deposits are paused.
pub fn is_paused(env: &Env) -> (r: bool)
    ensures
        r == env@.storage.paused,
{
    env.storage.paused
}

/// The configured penalty cap, if any.
pub fn get_max_penalty_bps(env: &Env) -> (r: Option<u32>)
    ensures
        r == env@.storage.max_penalty_bps,
{
    env.storage.max_penalty_bps
}

/// The configured minimum cancellation fee, if any.
pub fn get_min_cancel_fee(env: &Env) -> (r: Option<i128>)
    ensures
        r == env@.storage.min_cancel_fee,
{
    env.storage.min_cancel_fee
}

/// Whether `depositor` is frozen.
pub fn is_frozen(env: &Env, depositor: &Address) -> (r: bool)
    ensures
        r == env@.storage.frozen.contains(*depositor),
{
    env.storage.frozen.contains_key(&depositor.id)
}

/// Whether `token` is frozen.
pub fn is_token_frozen(env: &Env, token: &Address) -> (r: bool)
    ensures
        r == env@.storage.frozen_tokens.contains(*token),
{
    env.storage.frozen_tokens.contains_key(&token.id)
}

/// Succeeds exactly when `admin` is the stored admin.
pub fn require_admin(env: &Env, admin: &Address) -> (r: Result<(), VaultError>)
    ensures
        r is Ok <==> env@.storage.admin == Some(*admin),
        r is Err ==> r == Err::<(), VaultError>(VaultError::Unauthorized),
{
    match env.storage.admin {
        Some(stored) => {
            if stored == *admin {
                Ok(())
            } else {
                Err(VaultError::Unauthorized)
            }
        },
        None => Err(VaultError::Unauthorized),
    }
}

} // verus!
