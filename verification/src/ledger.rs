//! A model of the remote ledger as the client relies on it: contracts at
//! fresh addresses, the counter's stored sum, the caller's forwarding, and
//! the dispatcher that submits pending transactions against it.
//!
//! One transaction resolves through `dispatch_one`; a homogeneous batch
//! resolves through `dispatch_batch`, whose results are index-aligned with
//! submission order and whose slots fail independently.

use vstd::prelude::*;
use crate::address::{Address, is_address_bytes, bytes_eq};
use crate::builder::{PendingTx, TxView, TxKind, CodeMeta};
use crate::numeric::{be_of, be_val, zero_bytes, top_encode_u128, lemma_be_of_props,
    lemma_be_of_len, lemma_be_val_zero_prefix, lemma_pow256_16};
use crate::proxy::{OpName, name_bytes, parse_arg_num, parse_arg_addr, parse_payload_num,
    parse_payload_addr, is_bare_payload};

verus! {

/// One contract instance's state.
pub enum ContractState {
    /// The counter: its stored sum.
    Counter { sum: u128 },
    /// The caller: the counter it forwards additions to.
    Caller { target: Address },
}

/// The mathematical content of a contract's state.
pub enum ContractV {
    Counter { sum: u128 },
    Caller { target: Seq<u8> },
}

impl View for ContractState {
    type V = ContractV;

    open spec fn view(&self) -> ContractV {
        match self {
            ContractState::Counter { sum } => ContractV::Counter { sum: *sum },
            ContractState::Caller { target } => ContractV::Caller { target: target@ },
        }
    }
}

struct Entry {
    seed: u64,
    balance: u128,
    upgradeable: bool,
    state: ContractState,
}

/// One deployed contract in the model: its address seed, its native
/// balance, whether its code may be replaced, and its state.
#[verifier::ext_equal]
pub struct EntryV {
    pub seed: u64,
    pub balance: u128,
    pub upgradeable: bool,
    pub state: ContractV,
}

impl View for Entry {
    type V = EntryV;

    closed spec fn view(&self) -> EntryV {
        EntryV {
            seed: self.seed,
            balance: self.balance,
            upgradeable: self.upgradeable,
            state: self.state@,
        }
    }
}

/// The ledger model: the two known code blobs, the deployed contracts in
/// deployment order, and the seed the next deploy draws its address from.
pub struct LedgerModel {
    primary_code: Vec<u8>,
    caller_code: Vec<u8>,
    entries: Vec<Entry>,
    next_seed: u64,
}

/// The mathematical content of the ledger model.
#[verifier::ext_equal]
pub struct LedgerV {
    pub primary_code: Seq<u8>,
    pub caller_code: Seq<u8>,
    pub entries: Seq<EntryV>,
    pub next_seed: u64,
}

impl View for LedgerModel {
    type V = LedgerV;

    closed spec fn view(&self) -> LedgerV {
        LedgerV {
            primary_code: self.primary_code@,
            caller_code: self.caller_code@,
            entries: self.entries@.map_values(|e: Entry| e@),
            next_seed: self.next_seed,
        }
    }
}

/// The canonical address drawn from a seed: the seed big-endian, padded
/// with leading zeros to the address width.
pub open spec fn addr_of_seed(seed: u64) -> Seq<u8> {
    zero_bytes((32 - be_of(seed as nat).len()) as nat) + be_of(seed as nat)
}

/// A seed's address is canonical and still holds the seed, so distinct
/// seeds give distinct addresses.
pub proof fn lemma_addr_of_seed(seed: u64)
    ensures
        is_address_bytes(addr_of_seed(seed)),
        be_val(addr_of_seed(seed)) == seed,
{
    lemma_be_of_props(seed as nat);
    lemma_pow256_16();
    lemma_be_of_len(seed as nat, 16);
    lemma_be_val_zero_prefix((32 - be_of(seed as nat).len()) as nat, be_of(seed as nat));
}

/// Freshly drawn addresses never collide.
pub proof fn lemma_addr_of_seed_injective(s1: u64, s2: u64)
    requires
        addr_of_seed(s1) == addr_of_seed(s2),
    ensures
        s1 == s2,
{
    lemma_addr_of_seed(s1);
    lemma_addr_of_seed(s2);
}

/// Compute the address a seed stands for.
pub fn fresh_address(seed: u64) -> (r: Address)
    ensures
        r@ == addr_of_seed(seed),
        r.wf(),
{
    let enc = top_encode_u128(seed as u128);
    proof {
        lemma_addr_of_seed(seed);
    }
    let mut bytes: Vec<u8> = Vec::new();
    let pad: usize = 32 - enc.len();
    let mut i: usize = 0;
    while i < pad
        invariant
            i <= pad,
            bytes@ == zero_bytes(i as nat),
        decreases pad - i,
    {
        bytes.push(0);
        i = i + 1;
        proof {
            assert(bytes@ =~= zero_bytes(i as nat));
        }
    }
    let mut tail = enc;
    bytes.append(&mut tail);
    match Address::from_bytes(bytes) {
        Some(a) => a,
        None => vstd::pervasive::unreached(),
    }
}

/// The position of the entry whose address is `addr`, searching from `i`.
pub open spec fn lookup_from(entries: Seq<EntryV>, addr: Seq<u8>, i: int) -> Option<int>
    decreases entries.len() - i,
{
    if i < 0 || i >= entries.len() {
        None
    } else if addr_of_seed(entries[i].seed) == addr {
        Some(i)
    } else {
        lookup_from(entries, addr, i + 1)
    }
}

/// The position of the entry deployed at `addr`, if any.
pub open spec fn lookup(entries: Seq<EntryV>, addr: Seq<u8>) -> Option<int> {
    lookup_from(entries, addr, 0)
}

fn find_entry(entries: &Vec<Entry>, addr: &Address) -> (r: Option<usize>)
    ensures
        match r {
            Some(i) => lookup(entries@.map_values(|e: Entry| e@), addr@) == Some(i as int) && i
                < entries@.len(),
            None => lookup(entries@.map_values(|e: Entry| e@), addr@) is None,
        },
{
    let ghost evs = entries@.map_values(|e: Entry| e@);
    let mut i: usize = 0;
    while i < entries.len()
        invariant
            i <= entries@.len(),
            evs == entries@.map_values(|e: Entry| e@),
            lookup(evs, addr@) == lookup_from(evs, addr@, i as int),
        decreases entries@.len() - i,
    {
        let candidate = fresh_address(entries[i].seed);
        if bytes_eq(candidate.as_bytes(), addr.as_bytes()) {
            proof {
                assert(addr_of_seed(evs[i as int].seed) == addr@);
            }
            return Some(i);
        }
        proof {
            assert(addr_of_seed(evs[i as int].seed) != addr@);
        }
        i = i + 1;
    }
    None
}

/// Where an entry looks up depends only on the seeds, so updating an
/// entry's state in place moves no address.
pub proof fn lemma_lookup_same_seeds(a: Seq<EntryV>, b: Seq<EntryV>, addr: Seq<u8>, k: int)
    requires
        a.len() == b.len(),
        forall|i: int| 0 <= i < a.len() ==> (#[trigger] a[i]).seed == (#[trigger] b[i]).seed,
    ensures
        lookup_from(a, addr, k) == lookup_from(b, addr, k),
    decreases a.len() - k,
{
    if 0 <= k < a.len() {
        lemma_lookup_same_seeds(a, b, addr, k + 1);
    }
}

/// A found entry really sits at the found position.
pub proof fn lemma_lookup_in_bounds(entries: Seq<EntryV>, addr: Seq<u8>, k: int)
    ensures
        (match lookup_from(entries, addr, k) {
            Some(i) => k <= i < entries.len() && addr_of_seed(entries[i].seed) == addr,
            None => true,
        }),
    decreases entries.len() - k,
{
    if 0 <= k < entries.len() {
        if addr_of_seed(entries[k].seed) != addr {
            lemma_lookup_in_bounds(entries, addr, k + 1);
        }
    }
}

/// The reason the ledger rejected a transaction.
#[derive(PartialEq, Eq, Structural, Clone, Copy, Debug)]
pub enum FailKind {
    /// The receiver is not a deployed contract, or a forwarding target is
    /// not a counter.
    UnknownContract,
    /// The payload does not encode an operation the receiver understands.
    BadPayload,
    /// The code blob is not one the ledger knows, or does not fit the
    /// receiver.
    WrongCode,
    /// The transaction's fields do not fit its shape.
    WrongShape,
    /// The receiver was deployed without permission to upgrade.
    NotUpgradeable,
    /// No fresh address is left to draw.
    Exhausted,
}

/// The resolved outcome of one submitted transaction.
pub enum Outcome {
    /// A deploy succeeded at this fresh address.
    Deployed(Address),
    /// Execution succeeded and returned these raw result bytes.
    Data(Vec<u8>),
    /// Execution succeeded and returned nothing.
    Done,
    /// The ledger rejected the transaction.
    Failed(FailKind),
}

/// The mathematical content of an outcome.
pub enum OutcomeV {
    Deployed(Seq<u8>),
    Data(Seq<u8>),
    Done,
    Failed(FailKind),
}

impl View for Outcome {
    type V = OutcomeV;

    open spec fn view(&self) -> OutcomeV {
        match self {
            Outcome::Deployed(a) => OutcomeV::Deployed(a@),
            Outcome::Data(d) => OutcomeV::Data(d@),
            Outcome::Done => OutcomeV::Done,
            Outcome::Failed(k) => OutcomeV::Failed(*k),
        }
    }
}

/// Addition that stops at the largest representable value.
pub open spec fn sat_add_u128(a: u128, b: u128) -> u128 {
    if a + b > u128::MAX {
        u128::MAX
    } else {
        (a + b) as u128
    }
}

fn sat_add_exec(a: u128, b: u128) -> (r: u128)
    ensures
        r == sat_add_u128(a, b),
{
    if a <= u128::MAX - b {
        a + b
    } else {
        u128::MAX
    }
}

/// The model's invariant: every deployed seed was drawn before the next
/// one, and no seed was drawn twice.
pub open spec fn ledger_wf(l: LedgerV) -> bool {
    &&& forall|i: int| 0 <= i < l.entries.len() ==> (#[trigger] l.entries[i]).seed < l.next_seed
    &&& forall|i: int, j: int|
        0 <= i < j < l.entries.len() ==> (#[trigger] l.entries[i]).seed != (
        #[trigger] l.entries[j]).seed
}

/// Whether a transaction's metadata permits later upgrades.
pub open spec fn meta_upgradeable(m: Option<CodeMeta>) -> bool {
    match m {
        Some(meta) => meta.upgradeable,
        None => false,
    }
}

/// What deploying one code blob with one payload does to the ledger.
pub open spec fn step_deploy(l: LedgerV, tx: TxView) -> (LedgerV, OutcomeV) {
    if l.next_seed == u64::MAX {
        (l, OutcomeV::Failed(FailKind::Exhausted))
    } else if tx.code == Some(l.primary_code) {
        match parse_arg_num(tx.payload, OpName::Init) {
            Some(v) => (
                LedgerV {
                    entries: l.entries.push(
                        EntryV {
                            seed: l.next_seed,
                            balance: tx.value,
                            upgradeable: meta_upgradeable(tx.meta),
                            state: ContractV::Counter { sum: v },
                        },
                    ),
                    next_seed: (l.next_seed + 1) as u64,
                    ..l
                },
                OutcomeV::Deployed(addr_of_seed(l.next_seed)),
            ),
            None => (l, OutcomeV::Failed(FailKind::BadPayload)),
        }
    } else if tx.code == Some(l.caller_code) {
        match parse_arg_addr(tx.payload, OpName::Init) {
            Some(a) => (
                LedgerV {
                    entries: l.entries.push(
                        EntryV {
                            seed: l.next_seed,
                            balance: tx.value,
                            upgradeable: meta_upgradeable(tx.meta),
                            state: ContractV::Caller { target: a },
                        },
                    ),
                    next_seed: (l.next_seed + 1) as u64,
                    ..l
                },
                OutcomeV::Deployed(addr_of_seed(l.next_seed)),
            ),
            None => (l, OutcomeV::Failed(FailKind::BadPayload)),
        }
    } else {
        (l, OutcomeV::Failed(FailKind::WrongCode))
    }
}

/// What one finalized transaction does to the ledger, and what it returns.
pub open spec fn ledger_step(l: LedgerV, tx: TxView) -> (LedgerV, OutcomeV) {
    match tx.kind {
        TxKind::Deploy => if tx.code is Some {
            step_deploy(l, tx)
        } else {
            (l, OutcomeV::Failed(FailKind::WrongShape))
        },
        TxKind::Upgrade => match tx.receiver {
            None => (l, OutcomeV::Failed(FailKind::WrongShape)),
            Some(r) => match lookup(l.entries, r) {
                None => (l, OutcomeV::Failed(FailKind::UnknownContract)),
                Some(i) => {
                    let e = l.entries[i];
                    if !(e.state is Counter) {
                        (l, OutcomeV::Failed(FailKind::WrongCode))
                    } else if tx.code != Some(l.primary_code) {
                        (l, OutcomeV::Failed(FailKind::WrongCode))
                    } else if !e.upgradeable {
                        (l, OutcomeV::Failed(FailKind::NotUpgradeable))
                    } else {
                        match parse_arg_num(tx.payload, OpName::Upgrade) {
                            Some(v) => (
                                LedgerV {
                                    entries: l.entries.update(
                                        i,
                                        EntryV { state: ContractV::Counter { sum: v }, ..e },
                                    ),
                                    ..l
                                },
                                OutcomeV::Data(be_of(v as nat)),
                            ),
                            None => (l, OutcomeV::Failed(FailKind::BadPayload)),
                        }
                    }
                },
            },
        },
        TxKind::Call => match tx.receiver {
            None => (l, OutcomeV::Failed(FailKind::WrongShape)),
            Some(r) => match lookup(l.entries, r) {
                None => (l, OutcomeV::Failed(FailKind::UnknownContract)),
                Some(i) => match l.entries[i].state {
                    ContractV::Counter { sum } => match parse_arg_num(tx.payload, OpName::Add) {
                        Some(v) => (
                            LedgerV {
                                entries: l.entries.update(
                                    i,
                                    EntryV {
                                        state: ContractV::Counter { sum: sat_add_u128(sum, v) },
                                        ..l.entries[i]
                                    },
                                ),
                                ..l
                            },
                            OutcomeV::Done,
                        ),
                        None => (l, OutcomeV::Failed(FailKind::BadPayload)),
                    },
                    ContractV::Caller { target } => match parse_arg_num(
                        tx.payload,
                        OpName::CallAdd,
                    ) {
                        Some(v) => match lookup(l.entries, target) {
                            None => (l, OutcomeV::Failed(FailKind::UnknownContract)),
                            Some(j) => match l.entries[j].state {
                                ContractV::Counter { sum } => (
                                    LedgerV {
                                        entries: l.entries.update(
                                            j,
                                            EntryV {
                                                state: ContractV::Counter {
                                                    sum: sat_add_u128(sum, v),
                                                },
                                                ..l.entries[j]
                                            },
                                        ),
                                        ..l
                                    },
                                    OutcomeV::Done,
                                ),
                                ContractV::Caller { .. } => (
                                    l,
                                    OutcomeV::Failed(FailKind::UnknownContract),
                                ),
                            },
                        },
                        None => (l, OutcomeV::Failed(FailKind::BadPayload)),
                    },
                },
            },
        },
        TxKind::Query => match tx.receiver {
            None => (l, OutcomeV::Failed(FailKind::WrongShape)),
            Some(r) => match lookup(l.entries, r) {
                None => (l, OutcomeV::Failed(FailKind::UnknownContract)),
                Some(i) => match l.entries[i].state {
                    ContractV::Counter { sum } => if tx.payload == name_bytes(OpName::Sum) {
                        (l, OutcomeV::Data(be_of(sum as nat)))
                    } else {
                        (l, OutcomeV::Failed(FailKind::BadPayload))
                    },
                    ContractV::Caller { .. } => (l, OutcomeV::Failed(FailKind::BadPayload)),
                },
            },
        },
        TxKind::Transfer => if tx.payload.len() != 0 {
            (l, OutcomeV::Failed(FailKind::WrongShape))
        } else {
            match tx.receiver {
                None => (l, OutcomeV::Failed(FailKind::WrongShape)),
                Some(r) => match lookup(l.entries, r) {
                    None => (l, OutcomeV::Failed(FailKind::UnknownContract)),
                    Some(i) => (
                        LedgerV {
                            entries: l.entries.update(
                                i,
                                EntryV {
                                    balance: sat_add_u128(l.entries[i].balance, tx.value),
                                    ..l.entries[i]
                                },
                            ),
                            ..l
                        },
                        OutcomeV::Done,
                    ),
                },
            }
        },
    }
}

impl LedgerModel {
    /// A fresh ledger that knows the two code blobs and holds no contract.
    pub fn new(primary_code: Vec<u8>, caller_code: Vec<u8>) -> (r: LedgerModel)
        ensures
            r@.primary_code == primary_code@,
            r@.caller_code == caller_code@,
            r@.entries.len() == 0,
            r@.next_seed == 0,
            ledger_wf(r@),
    {
        LedgerModel { primary_code, caller_code, entries: Vec::new(), next_seed: 0 }
    }

    /// The counter code blob this ledger executes.
    pub fn primary_code(&self) -> (r: &Vec<u8>)
        ensures
            r@ == self@.primary_code,
    {
        &self.primary_code
    }

    /// The caller code blob this ledger executes.
    pub fn caller_code(&self) -> (r: &Vec<u8>)
        ensures
            r@ == self@.caller_code,
    {
        &self.caller_code
    }
}

/// Submit one transaction and resolve its finalized outcome against the
/// model: the model moves exactly one `ledger_step`.
pub fn dispatch_one(l: &mut LedgerModel, tx: &PendingTx) -> (r: Outcome)
    requires
        ledger_wf(old(l)@),
    ensures
        ledger_wf(final(l)@),
        final(l)@ == ledger_step(old(l)@, tx@).0,
        r@ == ledger_step(old(l)@, tx@).1,
{
    let ghost l0 = l@;
    match tx.kind() {
        TxKind::Deploy => {
            let has_code = tx.code().is_some();
            if !has_code {
                return Outcome::Failed(FailKind::WrongShape);
            }
            if l.next_seed == u64::MAX {
                return Outcome::Failed(FailKind::Exhausted);
            }
            let is_primary = match tx.code() {
                Some(c) => bytes_eq(c, &l.primary_code),
                None => false,
            };
            let is_caller = match tx.code() {
                Some(c) => bytes_eq(c, &l.caller_code),
                None => false,
            };
            let upg = match tx.meta() {
                Some(m) => m.upgradeable,
                None => false,
            };
            if is_primary {
                match parse_payload_num(tx.payload(), OpName::Init) {
                    Some(v) => {
                        let seed = l.next_seed;
                        let addr = fresh_address(seed);
                        l.entries.push(
                            Entry {
                                seed,
                                balance: tx.value(),
                                upgradeable: upg,
                                state: ContractState::Counter { sum: v },
                            },
                        );
                        l.next_seed = seed + 1;
                        proof {
                            assert(l@.entries =~= step_deploy(l0, tx@).0.entries);
                            assert(l@ =~= step_deploy(l0, tx@).0);
                            assert forall|i: int, j: int|
                                0 <= i < j < l@.entries.len() implies (
                            #[trigger] l@.entries[i]).seed != (#[trigger] l@.entries[j]).seed by {
                                if j < l@.entries.len() - 1 {
                                    assert(l0.entries[i].seed != l0.entries[j].seed);
                                }
                            }
                        }
                        Outcome::Deployed(addr)
                    },
                    None => Outcome::Failed(FailKind::BadPayload),
                }
            } else if is_caller {
                match parse_payload_addr(tx.payload(), OpName::Init) {
                    Some(a) => {
                        let seed = l.next_seed;
                        let addr = fresh_address(seed);
                        l.entries.push(
                            Entry {
                                seed,
                                balance: tx.value(),
                                upgradeable: upg,
                                state: ContractState::Caller { target: a },
                            },
                        );
                        l.next_seed = seed + 1;
                        proof {
                            assert(l@.entries =~= step_deploy(l0, tx@).0.entries);
                            assert(l@ =~= step_deploy(l0, tx@).0);
                            assert forall|i: int, j: int|
                                0 <= i < j < l@.entries.len() implies (
                            #[trigger] l@.entries[i]).seed != (#[trigger] l@.entries[j]).seed by {
                                if j < l@.entries.len() - 1 {
                                    assert(l0.entries[i].seed != l0.entries[j].seed);
                                }
                            }
                        }
                        Outcome::Deployed(addr)
                    },
                    None => Outcome::Failed(FailKind::BadPayload),
                }
            } else {
                Outcome::Failed(FailKind::WrongCode)
            }
        },
        TxKind::Upgrade => {
            let recv = match tx.receiver() {
                Some(a) => a,
                None => {
                    return Outcome::Failed(FailKind::WrongShape);
                },
            };
            let idx = match find_entry(&l.entries, recv) {
                Some(i) => i,
                None => {
                    return Outcome::Failed(FailKind::UnknownContract);
                },
            };
            let is_counter = match &l.entries[idx].state {
                ContractState::Counter { .. } => true,
                ContractState::Caller { .. } => false,
            };
            if !is_counter {
                return Outcome::Failed(FailKind::WrongCode);
            }
            let code_ok = match tx.code() {
                Some(c) => bytes_eq(c, &l.primary_code),
                None => false,
            };
            if !code_ok {
                return Outcome::Failed(FailKind::WrongCode);
            }
            if !l.entries[idx].upgradeable {
                return Outcome::Failed(FailKind::NotUpgradeable);
            }
            match parse_payload_num(tx.payload(), OpName::Upgrade) {
                Some(v) => {
                    let e = &l.entries[idx];
                    let updated = Entry {
                        seed: e.seed,
                        balance: e.balance,
                        upgradeable: e.upgradeable,
                        state: ContractState::Counter { sum: v },
                    };
                    l.entries[idx] = updated;
                    proof {
                        assert(l@.entries =~= ledger_step(l0, tx@).0.entries);
                        assert(l@ =~= ledger_step(l0, tx@).0);
                    }
                    Outcome::Data(top_encode_u128(v))
                },
                None => Outcome::Failed(FailKind::BadPayload),
            }
        },
        TxKind::Call => {
            let recv = match tx.receiver() {
                Some(a) => a,
                None => {
                    return Outcome::Failed(FailKind::WrongShape);
                },
            };
            let idx = match find_entry(&l.entries, recv) {
                Some(i) => i,
                None => {
                    return Outcome::Failed(FailKind::UnknownContract);
                },
            };
            let target: Option<Address> = match &l.entries[idx].state {
                ContractState::Counter { .. } => None,
                ContractState::Caller { target } => Some(target.clone()),
            };
            match target {
                None => {
                    let sum = match &l.entries[idx].state {
                        ContractState::Counter { sum } => *sum,
                        ContractState::Caller { .. } => 0,
                    };
                    match parse_payload_num(tx.payload(), OpName::Add) {
                        Some(v) => {
                            let e = &l.entries[idx];
                            let updated = Entry {
                                seed: e.seed,
                                balance: e.balance,
                                upgradeable: e.upgradeable,
                                state: ContractState::Counter { sum: sat_add_exec(sum, v) },
                            };
                            l.entries[idx] = updated;
                            proof {
                                assert(l@.entries =~= ledger_step(l0, tx@).0.entries);
                                assert(l@ =~= ledger_step(l0, tx@).0);
                            }
                            Outcome::Done
                        },
                        None => Outcome::Failed(FailKind::BadPayload),
                    }
                },
                Some(t) => {
                    let v = match parse_payload_num(tx.payload(), OpName::CallAdd) {
                        Some(v) => v,
                        None => {
                            return Outcome::Failed(FailKind::BadPayload);
                        },
                    };
                    let jdx = match find_entry(&l.entries, &t) {
                        Some(j) => j,
                        None => {
                            return Outcome::Failed(FailKind::UnknownContract);
                        },
                    };
                    let sum = match &l.entries[jdx].state {
                        ContractState::Counter { sum } => *sum,
                        ContractState::Caller { .. } => {
                            return Outcome::Failed(FailKind::UnknownContract);
                        },
                    };
                    let e = &l.entries[jdx];
                    let updated = Entry {
                        seed: e.seed,
                        balance: e.balance,
                        upgradeable: e.upgradeable,
                        state: ContractState::Counter { sum: sat_add_exec(sum, v) },
                    };
                    l.entries[jdx] = updated;
                    proof {
                        assert(l@.entries =~= ledger_step(l0, tx@).0.entries);
                        assert(l@ =~= ledger_step(l0, tx@).0);
                    }
                    Outcome::Done
                },
            }
        },
        TxKind::Query => {
            let r = query_one(l, tx);
            r
        },
        TxKind::Transfer => {
            if tx.payload().len() != 0 {
                return Outcome::Failed(FailKind::WrongShape);
            }
            let recv = match tx.receiver() {
                Some(a) => a,
                None => {
                    return Outcome::Failed(FailKind::WrongShape);
                },
            };
            let idx = match find_entry(&l.entries, recv) {
                Some(i) => i,
                None => {
                    return Outcome::Failed(FailKind::UnknownContract);
                },
            };
            let e = &l.entries[idx];
            let new_balance = sat_add_exec(e.balance, tx.value());
            let updated = Entry {
                seed: e.seed,
                balance: new_balance,
                upgradeable: e.upgradeable,
                state: match &e.state {
                    ContractState::Counter { sum } => ContractState::Counter { sum: *sum },
                    ContractState::Caller { target } => ContractState::Caller {
                        target: target.clone(),
                    },
                },
            };
            l.entries[idx] = updated;
            proof {
                assert(l@.entries =~= ledger_step(l0, tx@).0.entries);
                assert(l@ =~= ledger_step(l0, tx@).0);
            }
            Outcome::Done
        },
    }
}

/// Resolve a read-only query without touching the ledger; a query moves no
/// `ledger_step` at all.
pub fn query_one(l: &LedgerModel, tx: &PendingTx) -> (r: Outcome)
    requires
        tx@.kind == TxKind::Query,
    ensures
        r@ == ledger_step(l@, tx@).1,
        ledger_step(l@, tx@).0 == l@,
{
    let recv = match tx.receiver() {
        Some(a) => a,
        None => {
            return Outcome::Failed(FailKind::WrongShape);
        },
    };
    let idx = match find_entry(&l.entries, recv) {
        Some(i) => i,
        None => {
            return Outcome::Failed(FailKind::UnknownContract);
        },
    };
    match &l.entries[idx].state {
        ContractState::Counter { sum } => {
            if is_bare_payload(tx.payload(), OpName::Sum) {
                Outcome::Data(top_encode_u128(*sum))
            } else {
                Outcome::Failed(FailKind::BadPayload)
            }
        },
        ContractState::Caller { .. } => Outcome::Failed(FailKind::BadPayload),
    }
}

/// What a whole batch does: each transaction steps the ledger in
/// submission order, and the outcomes line up with the submissions.
pub open spec fn ledger_steps(l: LedgerV, txs: Seq<TxView>) -> (LedgerV, Seq<OutcomeV>)
    decreases txs.len(),
{
    if txs.len() == 0 {
        (l, Seq::empty())
    } else {
        let first = ledger_step(l, txs[0]);
        let rest = ledger_steps(first.0, txs.skip(1));
        (rest.0, seq![first.1] + rest.1)
    }
}

/// The views of a vector of pending transactions.
pub open spec fn tx_views(txs: Seq<PendingTx>) -> Seq<TxView> {
    txs.map_values(|t: PendingTx| t@)
}

/// The views of a vector of outcomes.
pub open spec fn outcome_views(outs: Seq<Outcome>) -> Seq<OutcomeV> {
    outs.map_values(|o: Outcome| o@)
}

/// Submit a homogeneous batch: all transactions dispatch against the
/// ledger, and the returned outcomes are index-aligned with submission
/// order; one slot's failure leaves every other slot to resolve on its own.
pub fn dispatch_batch(l: &mut LedgerModel, txs: &Vec<PendingTx>) -> (r: Vec<Outcome>)
    requires
        ledger_wf(old(l)@),
    ensures
        ledger_wf(final(l)@),
        final(l)@ == ledger_steps(old(l)@, tx_views(txs@)).0,
        outcome_views(r@) == ledger_steps(old(l)@, tx_views(txs@)).1,
        r@.len() == txs@.len(),
{
    let ghost l0 = l@;
    let ghost views = tx_views(txs@);
    let mut outs: Vec<Outcome> = Vec::new();
    let mut i: usize = 0;
    proof {
        assert(views.skip(0) =~= views);
        assert(outcome_views(outs@) =~= Seq::<OutcomeV>::empty());
        assert(Seq::<OutcomeV>::empty() + ledger_steps(l0, views).1 =~= ledger_steps(l0, views).1);
    }
    while i < txs.len()
        invariant
            i <= txs@.len(),
            outs@.len() == i,
            ledger_wf(l@),
            views == tx_views(txs@),
            ledger_steps(l0, views).0 == ledger_steps(l@, views.skip(i as int)).0,
            ledger_steps(l0, views).1 == outcome_views(outs@) + ledger_steps(
                l@,
                views.skip(i as int),
            ).1,
        decreases txs@.len() - i,
    {
        let ghost lcur = l@;
        let o = dispatch_one(l, &txs[i]);
        proof {
            assert(views.skip(i as int)[0] == views[i as int]);
            assert(views.skip(i as int).skip(1) =~= views.skip(i as int + 1));
            assert(outcome_views(outs@.push(o)) =~= outcome_views(outs@) + seq![o@]);
            assert(ledger_steps(lcur, views.skip(i as int)).1 == seq![o@] + ledger_steps(
                l@,
                views.skip(i as int + 1),
            ).1);
        }
        outs.push(o);
        i = i + 1;
    }
    proof {
        assert(views.skip(txs@.len() as int) =~= Seq::<TxView>::empty());
        assert(ledger_steps(l@, views.skip(txs@.len() as int)).1 =~= Seq::<OutcomeV>::empty());
        assert(outcome_views(outs@) + Seq::<OutcomeV>::empty() =~= outcome_views(outs@));
    }
    outs
}

} // verus!
