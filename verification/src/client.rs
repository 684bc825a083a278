//! The orchestration client: the façade mapping domain actions onto the
//! proxy, the builder, the dispatcher and the address book. It is the only
//! component that touches the address book.

use vstd::prelude::*;
use crate::address::{Address, AddressBook, BookView, Role, is_address_bytes, book_view_wf};
use crate::builder::{TxBuilder, PendingTx, TxView, TxKind, CodeMeta};
use crate::hex::copy_range;
use crate::ledger::{LedgerModel, LedgerV, EntryV, ContractV, Outcome, OutcomeV, FailKind,
    dispatch_one, dispatch_batch, query_one, ledger_wf, ledger_step, ledger_steps, lookup,
    addr_of_seed, sat_add_u128, tx_views, lemma_addr_of_seed, lemma_lookup_in_bounds,
    lemma_lookup_same_seeds};
use crate::numeric::{be_of, be_val, lemma_be_of_props, lemma_be_of_short, lemma_pow256_16};
use crate::proxy::{Interface, OpName, Arg, ArgView, ArgKind, ResultShape, DecodedValue,
    payload_of, name_bytes, declared_args, args_fit, views_of, encode_operation,
    decode_result, parse_arg_num, lemma_parse_num_roundtrip, lemma_parse_addr_roundtrip};

verus! {

/// The gas budget for a single deploy, call or upgrade.
pub const GAS_STANDARD: u64 = 30_000_000;

/// The larger gas budget a batched deploy gets.
pub const GAS_BATCH_DEPLOY: u64 = 70_000_000;

/// The amount one feed transfers to the counter contract.
pub const FEED_AMOUNT: u128 = 50_000_000_000_000_000;

/// Everything that can go wrong in a façade operation.
#[derive(PartialEq, Eq, Structural, Clone, Copy, Debug)]
pub enum InteractError {
    /// An operation needed an address book entry that is not bound.
    MissingDependency,
    /// A batch deploy of zero contracts was asked for.
    InvalidCount,
    /// The ledger rejected the dispatched transaction, for this reason.
    Dispatch(FailKind),
    /// After an upgrade the contract's sum differed from the new value:
    /// state corrupted across the upgrade boundary.
    UpgradeMismatch,
}

/// The mathematical content of the client session.
#[verifier::ext_equal]
pub struct InteractView {
    pub book: BookView,
    pub sender: Seq<u8>,
    pub primary_code: Seq<u8>,
    pub caller_code: Seq<u8>,
}

/// The client session: the operator's address book and sender identity,
/// and the two code artifacts it deploys.
pub struct CrashInteract {
    book: AddressBook,
    sender: Address,
    primary_code: Vec<u8>,
    caller_code: Vec<u8>,
}

impl View for CrashInteract {
    type V = InteractView;

    closed spec fn view(&self) -> InteractView {
        InteractView {
            book: self.book@,
            sender: self.sender@,
            primary_code: self.primary_code@,
            caller_code: self.caller_code@,
        }
    }
}

impl CrashInteract {
    /// The session's invariant: canonical sender, canonical book entries.
    pub open spec fn wf(&self) -> bool {
        &&& is_address_bytes(self@.sender)
        &&& book_view_wf(self@.book)
    }

    /// Open a session from a sender identity, the two code artifacts and
    /// a (possibly restored) address book.
    pub fn new(sender: Address, primary_code: Vec<u8>, caller_code: Vec<u8>, book: AddressBook) -> (r:
        CrashInteract)
        requires
            sender.wf(),
            book.wf(),
        ensures
            r@ == (InteractView {
                book: book@,
                sender: sender@,
                primary_code: primary_code@,
                caller_code: caller_code@,
            }),
            r.wf(),
    {
        CrashInteract { book, sender, primary_code, caller_code }
    }

    /// The current address book, for persisting.
    pub fn book(&self) -> (r: &AddressBook)
        ensures
            r@ == self@.book,
    {
        &self.book
    }
}

/// The deploy transaction the client builds for the counter contract.
pub open spec fn deploy_tx_view(c: InteractView, gas: u64) -> TxView {
    TxView {
        sender: c.sender,
        receiver: None,
        value: 0,
        gas,
        payload: payload_of(OpName::Init, seq![ArgView::Num(0u32)]),
        code: Some(c.primary_code),
        meta: Some(CodeMeta { upgradeable: true }),
        kind: TxKind::Deploy,
    }
}

impl CrashInteract {
    fn make_deploy_tx(&self, gas: u64) -> (r: PendingTx)
        requires
            gas > 0,
        ensures
            r@ == deploy_tx_view(self@, gas),
    {
        let mut args: Vec<Arg> = Vec::new();
        args.push(Arg::Num(0));
        proof {
            assert(views_of(args@) =~= seq![ArgView::Num(0u32)]);
            assert(args_fit(
                declared_args(Interface::Primary, OpName::Init)->Some_0,
                views_of(args@),
            ));
        }
        let payload = match encode_operation(Interface::Primary, OpName::Init, &args) {
            Ok(p) => p,
            Err(_) => vstd::pervasive::unreached(),
        };
        let code = copy_range(&self.primary_code, 0, self.primary_code.len());
        proof {
            assert(code@ =~= self@.primary_code);
        }
        let b = TxBuilder::new(TxKind::Deploy).sender(self.sender.clone()).gas(gas).payload(
            payload,
        ).code(code, CodeMeta { upgradeable: true });
        match b.build() {
            Ok(tx) => {
                proof {
                    assert(tx@ =~= deploy_tx_view(self@, gas));
                }
                tx
            },
            Err(_) => vstd::pervasive::unreached(),
        }
    }

    /// Deploy the counter contract with an initial sum of zero, and bind
    /// the primary role to the fresh address. Fails only when the ledger
    /// has no fresh address left.
    pub fn deploy(&mut self, l: &mut LedgerModel) -> (r: Result<Address, InteractError>)
        requires
            old(self).wf(),
            ledger_wf(old(l)@),
            old(self)@.primary_code == old(l)@.primary_code,
        ensures
            final(self).wf(),
            ledger_wf(final(l)@),
            final(self)@.sender == old(self)@.sender,
            final(self)@.primary_code == old(self)@.primary_code,
            final(self)@.caller_code == old(self)@.caller_code,
            final(l)@.primary_code == old(l)@.primary_code,
            final(l)@.caller_code == old(l)@.caller_code,
            r is Ok <==> old(l)@.next_seed < u64::MAX,
            match r {
                Ok(a) => {
                    &&& a@ == addr_of_seed(old(l)@.next_seed)
                    &&& a.wf()
                    &&& final(l)@.entries == old(l)@.entries.push(
                        (EntryV {
                            seed: old(l)@.next_seed,
                            balance: 0,
                            upgradeable: true,
                            state: ContractV::Counter { sum: 0 },
                        }),
                    )
                    &&& final(l)@.next_seed == old(l)@.next_seed + 1
                    &&& final(self)@.book == old(self)@.book.with_role(Role::Primary, a@)
                },
                Err(e) => {
                    &&& e == InteractError::Dispatch(FailKind::Exhausted)
                    &&& final(l)@ == old(l)@
                    &&& final(self)@ == old(self)@
                },
            },
    {
        let tx = self.make_deploy_tx(GAS_STANDARD);
        proof {
            lemma_parse_num_roundtrip(OpName::Init, 0);
        }
        let out = dispatch_one(l, &tx);
        match out {
            Outcome::Deployed(a) => {
                proof {
                    lemma_addr_of_seed(old(l)@.next_seed);
                }
                let a2 = a.clone();
                self.book.set(Role::Primary, a2);
                Ok(a)
            },
            Outcome::Failed(k) => Err(InteractError::Dispatch(k)),
            Outcome::Data(_) => vstd::pervasive::unreached(),
            Outcome::Done => vstd::pervasive::unreached(),
        }
    }
}

/// The deploy transaction the client builds for the caller contract,
/// whose init argument is the current primary address.
pub open spec fn caller_deploy_tx_view(c: InteractView, target: Seq<u8>, gas: u64) -> TxView {
    TxView {
        sender: c.sender,
        receiver: None,
        value: 0,
        gas,
        payload: payload_of(OpName::Init, seq![ArgView::Addr(target)]),
        code: Some(c.caller_code),
        meta: Some(CodeMeta { upgradeable: true }),
        kind: TxKind::Deploy,
    }
}

impl CrashInteract {
    fn make_caller_deploy_tx(&self, target: Address, gas: u64) -> (r: PendingTx)
        requires
            gas > 0,
            target.wf(),
        ensures
            r@ == caller_deploy_tx_view(self@, target@, gas),
    {
        let ghost tv = target@;
        let mut args: Vec<Arg> = Vec::new();
        args.push(Arg::Addr(target));
        proof {
            assert(views_of(args@) =~= seq![ArgView::Addr(tv)]);
            assert(args_fit(
                declared_args(Interface::Caller, OpName::Init)->Some_0,
                views_of(args@),
            ));
        }
        let payload = match encode_operation(Interface::Caller, OpName::Init, &args) {
            Ok(p) => p,
            Err(_) => vstd::pervasive::unreached(),
        };
        let code = copy_range(&self.caller_code, 0, self.caller_code.len());
        proof {
            assert(code@ =~= self@.caller_code);
        }
        let b = TxBuilder::new(TxKind::Deploy).sender(self.sender.clone()).gas(gas).payload(
            payload,
        ).code(code, CodeMeta { upgradeable: true });
        match b.build() {
            Ok(tx) => {
                proof {
                    assert(tx@ =~= caller_deploy_tx_view(self@, tv, gas));
                }
                tx
            },
            Err(_) => vstd::pervasive::unreached(),
        }
    }

    /// Deploy the caller contract pointing at the current primary address,
    /// and bind the caller role to the fresh address. Fails with
    /// `MissingDependency` exactly when no primary address is bound.
    pub fn deploy_caller(&mut self, l: &mut LedgerModel) -> (r: Result<Address, InteractError>)
        requires
            old(self).wf(),
            ledger_wf(old(l)@),
            old(self)@.caller_code == old(l)@.caller_code,
            old(self)@.primary_code == old(l)@.primary_code,
            old(l)@.primary_code != old(l)@.caller_code,
        ensures
            final(self).wf(),
            ledger_wf(final(l)@),
            final(self)@.sender == old(self)@.sender,
            final(self)@.primary_code == old(self)@.primary_code,
            final(self)@.caller_code == old(self)@.caller_code,
            final(l)@.primary_code == old(l)@.primary_code,
            final(l)@.caller_code == old(l)@.caller_code,
            r is Ok <==> old(self)@.book.primary is Some && old(l)@.next_seed < u64::MAX,
            old(self)@.book.primary is None ==> r == Err::<Address, InteractError>(
                InteractError::MissingDependency,
            ) && final(l)@ == old(l)@ && final(self)@ == old(self)@,
            match r {
                Ok(a) => {
                    &&& a@ == addr_of_seed(old(l)@.next_seed)
                    &&& a.wf()
                    &&& final(l)@.entries == old(l)@.entries.push(
                        (EntryV {
                            seed: old(l)@.next_seed,
                            balance: 0,
                            upgradeable: true,
                            state: ContractV::Caller {
                                target: old(self)@.book.primary->Some_0,
                            },
                        }),
                    )
                    &&& final(l)@.next_seed == old(l)@.next_seed + 1
                    &&& final(self)@.book == old(self)@.book.with_role(Role::Caller, a@)
                },
                Err(_) => final(l)@ == old(l)@ && final(self)@ == old(self)@,
            },
    {
        let target = match self.book.get(Role::Primary) {
            Some(a) => a.clone(),
            None => {
                return Err(InteractError::MissingDependency);
            },
        };
        let tx = self.make_caller_deploy_tx(target, GAS_STANDARD);
        proof {
            lemma_parse_addr_roundtrip(OpName::Init, old(self)@.book.primary->Some_0);
        }
        let out = dispatch_one(l, &tx);
        match out {
            Outcome::Deployed(a) => {
                proof {
                    lemma_addr_of_seed(old(l)@.next_seed);
                }
                let a2 = a.clone();
                self.book.set(Role::Caller, a2);
                Ok(a)
            },
            Outcome::Failed(k) => Err(InteractError::Dispatch(k)),
            Outcome::Data(_) => vstd::pervasive::unreached(),
            Outcome::Done => vstd::pervasive::unreached(),
        }
    }
}

impl CrashInteract {
    fn make_call_tx(&self, recv: Address, payload: Vec<u8>, gas: u64) -> (r: PendingTx)
        requires
            gas > 0,
        ensures
            r@ == (TxView {
                sender: self@.sender,
                receiver: Some(recv@),
                value: 0,
                gas,
                payload: payload@,
                code: None,
                meta: None,
                kind: TxKind::Call,
            }),
    {
        let ghost rv = recv@;
        let b = TxBuilder::new(TxKind::Call).sender(self.sender.clone()).receiver(recv).gas(
            gas,
        ).payload(payload);
        match b.build() {
            Ok(tx) => tx,
            Err(_) => vstd::pervasive::unreached(),
        }
    }

    fn make_query_tx(&self, recv: Address, payload: Vec<u8>) -> (r: PendingTx)
        ensures
            r@ == (TxView {
                sender: self@.sender,
                receiver: Some(recv@),
                value: 0,
                gas: 0,
                payload: payload@,
                code: None,
                meta: None,
                kind: TxKind::Query,
            }),
    {
        let b = TxBuilder::new(TxKind::Query).sender(self.sender.clone()).receiver(recv).payload(
            payload,
        );
        match b.build() {
            Ok(tx) => tx,
            Err(_) => vstd::pervasive::unreached(),
        }
    }

    fn make_transfer_tx(&self, recv: Address, amount: u128, gas: u64) -> (r: PendingTx)
        requires
            gas > 0,
        ensures
            r@ == (TxView {
                sender: self@.sender,
                receiver: Some(recv@),
                value: amount,
                gas,
                payload: Seq::empty(),
                code: None,
                meta: None,
                kind: TxKind::Transfer,
            }),
    {
        let b = TxBuilder::new(TxKind::Transfer).sender(self.sender.clone()).receiver(recv).value(
            amount,
        ).gas(gas);
        match b.build() {
            Ok(tx) => tx,
            Err(_) => vstd::pervasive::unreached(),
        }
    }

    fn make_upgrade_tx(&self, recv: Address, payload: Vec<u8>, gas: u64) -> (r: PendingTx)
        requires
            gas > 0,
        ensures
            r@ == (TxView {
                sender: self@.sender,
                receiver: Some(recv@),
                value: 0,
                gas,
                payload: payload@,
                code: Some(self@.primary_code),
                meta: Some(CodeMeta { upgradeable: true }),
                kind: TxKind::Upgrade,
            }),
    {
        let code = copy_range(&self.primary_code, 0, self.primary_code.len());
        proof {
            assert(code@ =~= self@.primary_code);
        }
        let b = TxBuilder::new(TxKind::Upgrade).sender(self.sender.clone()).receiver(recv).gas(
            gas,
        ).payload(payload).code(code, CodeMeta { upgradeable: true });
        match b.build() {
            Ok(tx) => tx,
            Err(_) => vstd::pervasive::unreached(),
        }
    }

    fn encode_num_op(iface: Interface, op: OpName, value: u32) -> (r: Vec<u8>)
        requires
            declared_args(iface, op) == Some(seq![ArgKind::Numeric]),
        ensures
            r@ == payload_of(op, seq![ArgView::Num(value)]),
    {
        let mut args: Vec<Arg> = Vec::new();
        args.push(Arg::Num(value));
        proof {
            assert(views_of(args@) =~= seq![ArgView::Num(value)]);
            assert(args_fit(declared_args(iface, op)->Some_0, views_of(args@)));
        }
        match encode_operation(iface, op, &args) {
            Ok(p) => p,
            Err(_) => vstd::pervasive::unreached(),
        }
    }
}

/// An encoded counter addition never reads as the caller's forwarding
/// endpoint: the two operations cannot be confused on the wire.
pub proof fn lemma_add_not_calladd(v: u32)
    ensures
        (parse_arg_num(payload_of(OpName::Add, seq![ArgView::Num(v)]), OpName::CallAdd) is None),
{
    let p = payload_of(OpName::Add, seq![ArgView::Num(v)]);
    assert(p[0] == 0x61);
    if parse_arg_num(p, OpName::CallAdd) is Some {
        assert(p.subrange(0, 7) == name_bytes(OpName::CallAdd));
        assert(p.subrange(0, 7)[0] == p[0]);
        assert(name_bytes(OpName::CallAdd)[0] == 0x63);
        assert(false);
    }
}

/// An encoded forwarding call never reads as the counter's own addition.
pub proof fn lemma_calladd_not_add(v: u32)
    ensures
        (parse_arg_num(payload_of(OpName::CallAdd, seq![ArgView::Num(v)]), OpName::Add) is None),
{
    let p = payload_of(OpName::CallAdd, seq![ArgView::Num(v)]);
    assert(p[0] == 0x63);
    if parse_arg_num(p, OpName::Add) is Some {
        assert(p.subrange(0, 3) == name_bytes(OpName::Add));
        assert(p.subrange(0, 3)[0] == p[0]);
        assert(name_bytes(OpName::Add)[0] == 0x61);
        assert(false);
    }
}

impl CrashInteract {
    /// Add an amount to the counter at the primary address. Fails with
    /// `MissingDependency` exactly when no primary address is bound.
    pub fn add(&mut self, l: &mut LedgerModel, value: u32) -> (r: Result<(), InteractError>)
        requires
            old(self).wf(),
            ledger_wf(old(l)@),
        ensures
            final(self)@ == old(self)@,
            final(self).wf(),
            ledger_wf(final(l)@),
            final(l)@.primary_code == old(l)@.primary_code,
            final(l)@.caller_code == old(l)@.caller_code,
            final(l)@.next_seed == old(l)@.next_seed,
            (match old(self)@.book.primary {
                None => r == Err::<(), InteractError>(InteractError::MissingDependency) && final(l)@ == old(l)@,
                Some(pa) => match lookup(old(l)@.entries, pa) {
                    None => r == Err::<(), InteractError>(
                        InteractError::Dispatch(FailKind::UnknownContract),
                    ) && final(l)@ == old(l)@,
                    Some(i) => match old(l)@.entries[i].state {
                        ContractV::Counter { sum } => r is Ok && final(l)@.entries == old(l)@.entries.update(
                            i,
                            (EntryV {
                                state: ContractV::Counter {
                                    sum: sat_add_u128(sum, value as u128),
                                },
                                ..old(l)@.entries[i]
                            }),
                        ),
                        ContractV::Caller { .. } => r == Err::<(), InteractError>(
                            InteractError::Dispatch(FailKind::BadPayload),
                        ) && final(l)@ == old(l)@,
                    },
                },
            }),
    {
        let pa = match self.book.get(Role::Primary) {
            Some(a) => a.clone(),
            None => {
                return Err(InteractError::MissingDependency);
            },
        };
        let payload = Self::encode_num_op(Interface::Primary, OpName::Add, value);
        let tx = self.make_call_tx(pa, payload, GAS_STANDARD);
        proof {
            lemma_parse_num_roundtrip(OpName::Add, value);
            lemma_add_not_calladd(value);
        }
        let out = dispatch_one(l, &tx);
        match out {
            Outcome::Done => Ok(()),
            Outcome::Failed(k) => Err(InteractError::Dispatch(k)),
            Outcome::Deployed(_) => vstd::pervasive::unreached(),
            Outcome::Data(_) => vstd::pervasive::unreached(),
        }
    }

    /// Ask the caller contract to add an amount to its counter. Fails with
    /// `MissingDependency` exactly when no caller address is bound.
    pub fn call_caller(&mut self, l: &mut LedgerModel, value: u32) -> (r: Result<
        (),
        InteractError,
    >)
        requires
            old(self).wf(),
            ledger_wf(old(l)@),
        ensures
            final(self)@ == old(self)@,
            final(self).wf(),
            ledger_wf(final(l)@),
            final(l)@.primary_code == old(l)@.primary_code,
            final(l)@.caller_code == old(l)@.caller_code,
            final(l)@.next_seed == old(l)@.next_seed,
            (match old(self)@.book.caller {
                None => r == Err::<(), InteractError>(InteractError::MissingDependency) && final(l)@ == old(l)@,
                Some(ca) => match lookup(old(l)@.entries, ca) {
                    None => r == Err::<(), InteractError>(
                        InteractError::Dispatch(FailKind::UnknownContract),
                    ) && final(l)@ == old(l)@,
                    Some(i) => match old(l)@.entries[i].state {
                        ContractV::Caller { target } => match lookup(old(l)@.entries, target) {
                            None => r == Err::<(), InteractError>(
                                InteractError::Dispatch(FailKind::UnknownContract),
                            ) && final(l)@ == old(l)@,
                            Some(j) => match old(l)@.entries[j].state {
                                ContractV::Counter { sum } => r is Ok && final(l)@.entries == old(l)@.entries.update(
                                    j,
                                    (EntryV {
                                        state: ContractV::Counter {
                                            sum: sat_add_u128(sum, value as u128),
                                        },
                                        ..old(l)@.entries[j]
                                    }),
                                ),
                                ContractV::Caller { .. } => r == Err::<(), InteractError>(
                                    InteractError::Dispatch(FailKind::UnknownContract),
                                ) && final(l)@ == old(l)@,
                            },
                        },
                        ContractV::Counter { .. } => r == Err::<(), InteractError>(
                            InteractError::Dispatch(FailKind::BadPayload),
                        ) && final(l)@ == old(l)@,
                    },
                },
            }),
    {
        let ca = match self.book.get(Role::Caller) {
            Some(a) => a.clone(),
            None => {
                return Err(InteractError::MissingDependency);
            },
        };
        let payload = Self::encode_num_op(Interface::Caller, OpName::CallAdd, value);
        let tx = self.make_call_tx(ca, payload, GAS_STANDARD);
        proof {
            lemma_parse_num_roundtrip(OpName::CallAdd, value);
            lemma_calladd_not_add(value);
        }
        let out = dispatch_one(l, &tx);
        match out {
            Outcome::Done => Ok(()),
            Outcome::Failed(k) => Err(InteractError::Dispatch(k)),
            Outcome::Deployed(_) => vstd::pervasive::unreached(),
            Outcome::Data(_) => vstd::pervasive::unreached(),
        }
    }

    /// Query the counter's stored sum at the primary address and decode
    /// it; the ledger is left untouched. Fails with `MissingDependency`
    /// exactly when no primary address is bound.
    pub fn get_sum(&self, l: &LedgerModel) -> (r: Result<u128, InteractError>)
        requires
            self.wf(),
        ensures
            (match self@.book.primary {
                None => r == Err::<u128, InteractError>(InteractError::MissingDependency),
                Some(pa) => match lookup(l@.entries, pa) {
                    None => r == Err::<u128, InteractError>(
                        InteractError::Dispatch(FailKind::UnknownContract),
                    ),
                    Some(i) => match l@.entries[i].state {
                        ContractV::Counter { sum } => r == Ok::<u128, InteractError>(sum),
                        ContractV::Caller { .. } => r == Err::<u128, InteractError>(
                            InteractError::Dispatch(FailKind::BadPayload),
                        ),
                    },
                },
            }),
    {
        let pa = match self.book.get(Role::Primary) {
            Some(a) => a.clone(),
            None => {
                return Err(InteractError::MissingDependency);
            },
        };
        let ghost pav = pa@;
        let args: Vec<Arg> = Vec::new();
        proof {
            assert(views_of(args@) =~= Seq::<ArgView>::empty());
            assert(args_fit(
                declared_args(Interface::Primary, OpName::Sum)->Some_0,
                views_of(args@),
            ));
        }
        let payload = match encode_operation(Interface::Primary, OpName::Sum, &args) {
            Ok(p) => p,
            Err(_) => vstd::pervasive::unreached(),
        };
        proof {
            assert(payload@ =~= name_bytes(OpName::Sum));
        }
        let tx = self.make_query_tx(pa, payload);
        proof {
            if lookup(l@.entries, pav) is Some {
                let st = l@.entries[lookup(l@.entries, pav)->Some_0].state;
                if st is Counter {
                    lemma_be_of_props(st->Counter_sum as nat);
                    lemma_pow256_16();
                    lemma_be_of_short(st->Counter_sum as nat);
                }
            }
        }
        let out = query_one(l, &tx);
        match out {
            Outcome::Data(raw) => match decode_result(ResultShape::Numeric, raw) {
                Ok(DecodedValue::Num(n)) => Ok(n),
                _ => vstd::pervasive::unreached(),
            },
            Outcome::Failed(k) => Err(InteractError::Dispatch(k)),
            Outcome::Deployed(_) => vstd::pervasive::unreached(),
            Outcome::Done => vstd::pervasive::unreached(),
        }
    }

    /// Transfer the feeding amount of native currency to the counter at
    /// the primary address; no payload, nothing decoded.
    pub fn feed_contract_egld(&mut self, l: &mut LedgerModel) -> (r: Result<(), InteractError>)
        requires
            old(self).wf(),
            ledger_wf(old(l)@),
        ensures
            final(self)@ == old(self)@,
            final(self).wf(),
            ledger_wf(final(l)@),
            final(l)@.primary_code == old(l)@.primary_code,
            final(l)@.caller_code == old(l)@.caller_code,
            final(l)@.next_seed == old(l)@.next_seed,
            (match old(self)@.book.primary {
                None => r == Err::<(), InteractError>(InteractError::MissingDependency) && final(l)@ == old(l)@,
                Some(pa) => match lookup(old(l)@.entries, pa) {
                    None => r == Err::<(), InteractError>(
                        InteractError::Dispatch(FailKind::UnknownContract),
                    ) && final(l)@ == old(l)@,
                    Some(i) => r is Ok && final(l)@.entries == old(l)@.entries.update(
                        i,
                        (EntryV {
                            balance: sat_add_u128(old(l)@.entries[i].balance, FEED_AMOUNT),
                            ..old(l)@.entries[i]
                        }),
                    ),
                },
            }),
    {
        let pa = match self.book.get(Role::Primary) {
            Some(a) => a.clone(),
            None => {
                return Err(InteractError::MissingDependency);
            },
        };
        let tx = self.make_transfer_tx(pa, FEED_AMOUNT, GAS_STANDARD);
        let out = dispatch_one(l, &tx);
        match out {
            Outcome::Done => Ok(()),
            Outcome::Failed(k) => Err(InteractError::Dispatch(k)),
            Outcome::Deployed(_) => vstd::pervasive::unreached(),
            Outcome::Data(_) => vstd::pervasive::unreached(),
        }
    }

    /// Upgrade the counter at the primary address to a new value, then
    /// query the sum back and check it equals the new value exactly: any
    /// other value is state corruption across the upgrade boundary, a hard
    /// failure. When this returns a sum, it is the new value.
    pub fn upgrade(&mut self, l: &mut LedgerModel, new_value: u32) -> (r: Result<
        u128,
        InteractError,
    >)
        requires
            old(self).wf(),
            ledger_wf(old(l)@),
            old(self)@.primary_code == old(l)@.primary_code,
        ensures
            final(self)@ == old(self)@,
            final(self).wf(),
            ledger_wf(final(l)@),
            final(l)@.primary_code == old(l)@.primary_code,
            final(l)@.caller_code == old(l)@.caller_code,
            final(l)@.next_seed == old(l)@.next_seed,
            (r matches Ok(s) ==> s == new_value as u128),
            (match old(self)@.book.primary {
                None => r == Err::<u128, InteractError>(InteractError::MissingDependency) && final(l)@ == old(l)@,
                Some(pa) => match lookup(old(l)@.entries, pa) {
                    None => r == Err::<u128, InteractError>(
                        InteractError::Dispatch(FailKind::UnknownContract),
                    ) && final(l)@ == old(l)@,
                    Some(i) => match old(l)@.entries[i].state {
                        ContractV::Counter { .. } => {
                            if old(l)@.entries[i].upgradeable {
                                r == Ok::<u128, InteractError>(new_value as u128) && final(l)@.entries == old(l)@.entries.update(
                                    i,
                                    (EntryV {
                                        state: ContractV::Counter { sum: new_value as u128 },
                                        ..old(l)@.entries[i]
                                    }),
                                )
                            } else {
                                r == Err::<u128, InteractError>(
                                    InteractError::Dispatch(FailKind::NotUpgradeable),
                                ) && final(l)@ == old(l)@
                            }
                        },
                        ContractV::Caller { .. } => r == Err::<u128, InteractError>(
                            InteractError::Dispatch(FailKind::WrongCode),
                        ) && final(l)@ == old(l)@,
                    },
                },
            }),
    {
        let pa = match self.book.get(Role::Primary) {
            Some(a) => a.clone(),
            None => {
                return Err(InteractError::MissingDependency);
            },
        };
        let ghost pav = pa@;
        let payload = Self::encode_num_op(Interface::Primary, OpName::Upgrade, new_value);
        let tx = self.make_upgrade_tx(pa, payload, GAS_STANDARD);
        proof {
            lemma_parse_num_roundtrip(OpName::Upgrade, new_value);
        }
        let out = dispatch_one(l, &tx);
        match out {
            Outcome::Data(_) => {
                proof {
                    lemma_lookup_in_bounds(old(l)@.entries, pav, 0);
                    lemma_lookup_same_seeds(old(l)@.entries, l@.entries, pav, 0);
                }
                let queried = self.get_sum(l);
                match queried {
                    Ok(n) => {
                        if n == new_value as u128 {
                            Ok(n)
                        } else {
                            Err(InteractError::UpgradeMismatch)
                        }
                    },
                    Err(_) => vstd::pervasive::unreached(),
                }
            },
            Outcome::Failed(k) => Err(InteractError::Dispatch(k)),
            Outcome::Deployed(_) => vstd::pervasive::unreached(),
            Outcome::Done => vstd::pervasive::unreached(),
        }
    }
}

/// A homogeneous batch of identical counter deploys: every slot succeeds,
/// the outcomes line up with submission order, and the fresh addresses are
/// drawn in that same order.
pub proof fn lemma_deploy_batch(l: LedgerV, txs: Seq<TxView>, proto: TxView)
    requires
        proto.kind == TxKind::Deploy,
        proto.code == Some(l.primary_code),
        proto.value == 0,
        proto.meta == Some(CodeMeta { upgradeable: true }),
        parse_arg_num(proto.payload, OpName::Init) == Some(0u128),
        forall|k: int| 0 <= k < txs.len() ==> txs[k] == proto,
        l.next_seed + txs.len() <= u64::MAX,
    ensures
        ledger_steps(l, txs).0.primary_code == l.primary_code,
        ledger_steps(l, txs).0.caller_code == l.caller_code,
        ledger_steps(l, txs).0.next_seed == l.next_seed + txs.len(),
        ledger_steps(l, txs).0.entries.len() == l.entries.len() + txs.len(),
        forall|k: int|
            0 <= k < l.entries.len() ==> #[trigger] ledger_steps(l, txs).0.entries[k] == l.entries[k],
        forall|k: int|
            0 <= k < txs.len() ==> #[trigger] ledger_steps(l, txs).0.entries[l.entries.len() + k] == (EntryV {
                seed: (l.next_seed + k) as u64,
                balance: 0,
                upgradeable: true,
                state: ContractV::Counter { sum: 0 },
            }),
        ledger_steps(l, txs).1.len() == txs.len(),
        forall|k: int|
            0 <= k < txs.len() ==> #[trigger] ledger_steps(l, txs).1[k] == OutcomeV::Deployed(
                addr_of_seed((l.next_seed + k) as u64),
            ),
    decreases txs.len(),
{
    if txs.len() > 0 {
        let s0 = ledger_step(l, txs[0]);
        let l1 = s0.0;
        assert(txs[0] == proto);
        assert(s0.1 == OutcomeV::Deployed(addr_of_seed(l.next_seed)));
        let rest = txs.skip(1);
        assert forall|k: int| 0 <= k < rest.len() implies rest[k] == proto by {
            assert(rest[k] == txs[k + 1]);
        }
        lemma_deploy_batch(l1, rest, proto);
        let fin = ledger_steps(l, txs);
        assert(fin.0 == ledger_steps(l1, rest).0);
        assert(fin.1 == seq![s0.1] + ledger_steps(l1, rest).1);
        assert forall|k: int|
            0 <= k < txs.len() implies fin.1[k] == OutcomeV::Deployed(
            addr_of_seed((l.next_seed + k) as u64),
        ) by {
            if k > 0 {
                assert(fin.1[k] == ledger_steps(l1, rest).1[k - 1]);
            }
        }
        assert forall|k: int|
            0 <= k < txs.len() implies #[trigger] fin.0.entries[l.entries.len() + k] == (EntryV {
            seed: (l.next_seed + k) as u64,
            balance: 0,
            upgradeable: true,
            state: ContractV::Counter { sum: 0 },
        }) by {
            if k == 0 {
                assert(fin.0.entries[l1.entries.len() - 1] == l1.entries[l1.entries.len() - 1]);
            } else {
                assert(fin.0.entries[l1.entries.len() + (k - 1)] == (EntryV {
                    seed: (l1.next_seed + (k - 1)) as u64,
                    balance: 0,
                    upgradeable: true,
                    state: ContractV::Counter { sum: 0 },
                }));
            }
        }
    }
}

impl CrashInteract {
    /// Deploy `count` independent counter contracts as one homogeneous
    /// batch and rebind the primary role once per result in batch order,
    /// so only the last deployed address survives in the book. Rejects a
    /// count of zero without dispatching anything.
    pub fn multi_deploy(&mut self, l: &mut LedgerModel, count: u8) -> (r: Result<
        Vec<Address>,
        InteractError,
    >)
        requires
            old(self).wf(),
            ledger_wf(old(l)@),
            old(self)@.primary_code == old(l)@.primary_code,
            old(l)@.next_seed + count <= u64::MAX,
        ensures
            final(self).wf(),
            ledger_wf(final(l)@),
            final(self)@.sender == old(self)@.sender,
            final(self)@.primary_code == old(self)@.primary_code,
            final(self)@.caller_code == old(self)@.caller_code,
            final(l)@.primary_code == old(l)@.primary_code,
            final(l)@.caller_code == old(l)@.caller_code,
            r is Err <==> count == 0,
            count == 0 ==> final(l)@ == old(l)@ && final(self)@ == old(self)@ && r == Err::<
                Vec<Address>,
                InteractError,
            >(InteractError::InvalidCount),
            (match r {
                Ok(addrs) => {
                    &&& addrs@.len() == count
                    &&& forall|k: int|
                        0 <= k < count ==> (#[trigger] addrs@[k])@ == addr_of_seed(
                            (old(l)@.next_seed + k) as u64,
                        )
                    &&& final(l)@.next_seed == old(l)@.next_seed + count
                    &&& final(l)@.entries.len() == old(l)@.entries.len() + count
                    &&& forall|k: int|
                        0 <= k < old(l)@.entries.len() ==> #[trigger] final(l)@.entries[k] == old(l)@.entries[k]
                    &&& forall|k: int|
                        0 <= k < count ==> #[trigger] final(l)@.entries[old(l)@.entries.len() + k] == (EntryV {
                            seed: (old(l)@.next_seed + k) as u64,
                            balance: 0,
                            upgradeable: true,
                            state: ContractV::Counter { sum: 0 },
                        })
                    &&& final(self)@.book == old(self)@.book.with_role(
                        Role::Primary,
                        addr_of_seed((old(l)@.next_seed + count - 1) as u64),
                    )
                },
                Err(e) => e == InteractError::InvalidCount,
            }),
    {
        if count == 0 {
            return Err(InteractError::InvalidCount);
        }
        let ghost seed0 = old(l)@.next_seed;
        let ghost proto = deploy_tx_view(self@, GAS_BATCH_DEPLOY);
        let mut txs: Vec<PendingTx> = Vec::new();
        let mut i: usize = 0;
        while i < count as usize
            invariant
                i <= count as usize,
                txs@.len() == i,
                proto == deploy_tx_view(self@, GAS_BATCH_DEPLOY),
                forall|k: int| 0 <= k < i ==> (#[trigger] txs@[k])@ == proto,
            decreases count as usize - i,
        {
            let t = self.make_deploy_tx(GAS_BATCH_DEPLOY);
            txs.push(t);
            i = i + 1;
        }
        proof {
            lemma_parse_num_roundtrip(OpName::Init, 0);
            assert forall|k: int| 0 <= k < tx_views(txs@).len() implies tx_views(txs@)[k]
                == proto by {
                assert(tx_views(txs@)[k] == txs@[k]@);
            }
            lemma_deploy_batch(l@, tx_views(txs@), proto);
        }
        let outs = dispatch_batch(l, &txs);
        proof {
            assert forall|k: int| 0 <= k < outs@.len() implies (#[trigger] outs@[k])@
                == OutcomeV::Deployed(addr_of_seed((seed0 + k) as u64)) by {
                assert(outs@[k]@ == crate::ledger::outcome_views(outs@)[k]);
            }
        }
        let mut addrs: Vec<Address> = Vec::new();
        let mut j: usize = 0;
        while j < outs.len()
            invariant
                j <= outs@.len(),
                outs@.len() == count as nat,
                count > 0,
                seed0 + count <= u64::MAX,
                forall|k: int|
                    0 <= k < outs@.len() ==> (#[trigger] outs@[k])@ == OutcomeV::Deployed(
                        addr_of_seed((seed0 + k) as u64),
                    ),
                addrs@.len() == j,
                forall|k: int|
                    0 <= k < j ==> (#[trigger] addrs@[k])@ == addr_of_seed((seed0 + k) as u64),
                self@.sender == old(self)@.sender,
                self@.primary_code == old(self)@.primary_code,
                self@.caller_code == old(self)@.caller_code,
                self.wf(),
                j == 0 ==> self@.book == old(self)@.book,
                j > 0 ==> self@.book == old(self)@.book.with_role(
                    Role::Primary,
                    addr_of_seed((seed0 + j - 1) as u64),
                ),
            decreases outs@.len() - j,
        {
            match &outs[j] {
                Outcome::Deployed(a) => {
                    proof {
                        lemma_addr_of_seed((seed0 + j) as u64);
                    }
                    let a2 = a.clone();
                    self.book.set(Role::Primary, a2);
                    addrs.push(a.clone());
                },
                Outcome::Data(_) => {
                    proof {
                        assert(false);
                    }
                },
                Outcome::Done => {
                    proof {
                        assert(false);
                    }
                },
                Outcome::Failed(_) => {
                    proof {
                        assert(false);
                    }
                },
            }
            j = j + 1;
            proof {
                assert(self@.book =~= old(self)@.book.with_role(
                    Role::Primary,
                    addr_of_seed((seed0 + j - 1) as u64),
                ));
            }
        }
        Ok(addrs)
    }
}

/// The forwarding call and the direct addition have the very same effect
/// on the counter: from the same ledger, the caller's forwarding endpoint
/// and the counter's own endpoint step to the same state and outcome.
pub proof fn lemma_call_caller_matches_add(
    l: LedgerV,
    ca: Seq<u8>,
    pa: Seq<u8>,
    s: u128,
    v: u32,
    add_tx: TxView,
    cc_tx: TxView,
)
    requires
        add_tx.kind == TxKind::Call,
        add_tx.receiver == Some(pa),
        add_tx.payload == payload_of(OpName::Add, seq![ArgView::Num(v)]),
        cc_tx.kind == TxKind::Call,
        cc_tx.receiver == Some(ca),
        cc_tx.payload == payload_of(OpName::CallAdd, seq![ArgView::Num(v)]),
        (lookup(l.entries, ca) is Some),
        (l.entries[lookup(l.entries, ca)->Some_0].state == ContractV::Caller { target: pa }),
        (lookup(l.entries, pa) is Some),
        (l.entries[lookup(l.entries, pa)->Some_0].state == ContractV::Counter { sum: s }),
    ensures
        ledger_step(l, cc_tx).0 == ledger_step(l, add_tx).0,
        ledger_step(l, cc_tx).1 == ledger_step(l, add_tx).1,
        ledger_step(l, add_tx).1 == OutcomeV::Done,
        (ledger_step(l, add_tx).0.entries[lookup(l.entries, pa)->Some_0].state
            == ContractV::Counter { sum: sat_add_u128(s, v as u128) }),
{
    lemma_lookup_in_bounds(l.entries, ca, 0);
    lemma_lookup_in_bounds(l.entries, pa, 0);
    lemma_parse_num_roundtrip(OpName::Add, v);
    lemma_parse_num_roundtrip(OpName::CallAdd, v);
    lemma_add_not_calladd(v);
    lemma_calladd_not_add(v);
    let j = lookup(l.entries, pa)->Some_0;
    assert(ledger_step(l, cc_tx).0 =~= ledger_step(l, add_tx).0);
}

/// The encode-and-read-back round trip of one addition: after adding an
/// amount, the raw bytes the sum query returns decode to the old sum
/// increased by exactly that amount, and the query moves no state, so a
/// repeated query returns the same bytes again.
pub proof fn lemma_add_then_sum_round_trip(
    l: LedgerV,
    pa: Seq<u8>,
    s: u128,
    v: u32,
    add_tx: TxView,
    sum_tx: TxView,
)
    requires
        add_tx.kind == TxKind::Call,
        add_tx.receiver == Some(pa),
        add_tx.payload == payload_of(OpName::Add, seq![ArgView::Num(v)]),
        sum_tx.kind == TxKind::Query,
        sum_tx.receiver == Some(pa),
        sum_tx.payload == name_bytes(OpName::Sum),
        (lookup(l.entries, pa) is Some),
        (l.entries[lookup(l.entries, pa)->Some_0].state == ContractV::Counter { sum: s }),
        s + v <= u128::MAX,
    ensures
        ledger_step(ledger_step(l, add_tx).0, sum_tx).1 == OutcomeV::Data(
            be_of((s + v as u128) as nat),
        ),
        be_val(be_of((s + v as u128) as nat)) == s + v,
        ledger_step(ledger_step(l, add_tx).0, sum_tx).0 == ledger_step(l, add_tx).0,
{
    lemma_lookup_in_bounds(l.entries, pa, 0);
    lemma_parse_num_roundtrip(OpName::Add, v);
    let l1 = ledger_step(l, add_tx).0;
    lemma_lookup_same_seeds(l.entries, l1.entries, pa, 0);
    lemma_be_of_props((s + v as u128) as nat);
}

} // verus!
