//! The host environment the vault runs in.
use vstd::prelude::*;

use crate::model::{EnvView, VaultModel};
use crate::storage::Storage;
use crate::types::{Address, Event, Ledger, Step, Transfer};

verus! {

/// The host environment of one vault: the current ledger, the vault's own
/// address, its persistent storage, the ordered record of what the vault
/// asked the host for (authorizations, token transfers, events), and the
/// journal of the order in which it asked for them and wrote storage.
#[derive(Clone)]
pub struct Env {
    pub ledger: Ledger,
    pub contract: Address,
    pub storage: Storage,
    pub auths: Vec<Address>,
    pub transfers: Vec<Transfer>,
    pub events: Vec<Event>,
    pub journal: Vec<Step>,
}

impl View for Env {
    type V = EnvView;

    open spec fn view(&self) -> EnvView {
        EnvView {
            ledger: self.ledger,
            contract: self.contract,
            storage: self.storage@,
            auths: self.auths@,
            transfers: self.transfers@,
            events: self.events@,
            journal: self.journal@,
        }
    }
}

impl Env {
    /// The storage is well formed and in a state the contract can reach.
    pub open spec fn inv(&self) -> bool {
        self.storage.wf() && self.storage@.inv()
    }

    /// A freshly deployed vault at address `contract`, on the ledger closed
    /// at `timestamp` with sequence number `sequence`.
    pub fn new(contract: Address, timestamp: u64, sequence: u32) -> (env: Env)
        ensures
            env.inv(),
            env@ == (EnvView {
                ledger: Ledger { timestamp, sequence },
                contract,
                storage: VaultModel::empty(),
                auths: Seq::empty(),
                transfers: Seq::empty(),
                events: Seq::empty(),
                journal: Seq::empty(),
            }),
    {
        Env {
            ledger: Ledger { timestamp, sequence },
            contract,
            storage: Storage::new(),
            auths: Vec::new(),
            transfers: Vec::new(),
            events: Vec::new(),
            journal: Vec::new(),
        }
    }

    /// The close time of the current ledger.
    pub fn timestamp(&self) -> (t: u64)
        ensures
            t == self@.now(),
    {
        self.ledger.timestamp
    }

    /// The sequence number of the current ledger.
    pub fn sequence(&self) -> (s: u32)
        ensures
            s == self@.seq(),
    {
        self.ledger.sequence
    }

    /// The address of the vault itself.
    pub fn current_contract_address(&self) -> (a: Address)
        ensures
            a == self@.contract,
    {
        self.contract
    }

    /// Records that the call needs `a`'s authorization.
    pub fn require_auth(&mut self, a: &Address)
        ensures
            final(self)@ == old(self)@.auth(*a),
            final(self).storage == old(self).storage,
    {
        self.auths.push(*a);
        self.journal.push(Step::Auth);
    }

    /// Asks the token contract `token` to move `amount` from `from` to `to`.
    pub fn transfer(&mut self, token: &Address, from: &Address, to: &Address, amount: i128)
        ensures
            final(self)@ == old(self)@.transfer(*token, *from, *to, amount),
            final(self).storage == old(self).storage,
    {
        self.transfers.push(Transfer { token: *token, from: *from, to: *to, amount });
        self.journal.push(Step::Transfer);
    }

    /// Publishes `ev`.
    pub fn publish(&mut self, ev: Event)
        ensures
            final(self)@ == old(self)@.emit(ev),
            final(self).storage == old(self).storage,
    {
        self.events.push(ev);
        self.journal.push(Step::Event);
    }

    /// Notes in the journal that storage is about to be written.
    pub fn note_write(&mut self)
        ensures
            final(self)@ == old(self)@.with_storage(old(self)@.storage),
            final(self).storage == old(self).storage,
    {
        let n = self.journal.len();
        if n == 0 {
            self.journal.push(Step::Write);
        } else {
            match self.journal[n - 1] {
                Step::Write => {},
                _ => {
                    self.journal.push(Step::Write);
                },
            }
        }
    }
}

} // verus!
