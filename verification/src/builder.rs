//! The transaction builder: a fluent accumulation of optional attributes
//! with a single terminal build step that either returns a validated,
//! immutable pending transaction or a construction error.

use vstd::prelude::*;
use crate::address::Address;

verus! {

/// Flags attached to deployed or upgraded code.
#[derive(PartialEq, Eq, Structural, Clone, Copy, Debug)]
pub struct CodeMeta {
    /// Whether future upgrades of the contract are permitted.
    pub upgradeable: bool,
}

/// The shape of a pending transaction, fixed when the builder is made.
#[derive(PartialEq, Eq, Structural, Clone, Copy, Debug)]
pub enum TxKind {
    /// A pure value transfer, no payload.
    Transfer,
    /// A state-mutating endpoint call.
    Call,
    /// A read-only, gas-free query.
    Query,
    /// Installs new code and returns a fresh address.
    Deploy,
    /// Replaces the code of a deployed contract in place.
    Upgrade,
}

/// Construction errors: programming mistakes, fatal and never retried.
#[derive(PartialEq, Eq, Structural, Clone, Copy, Debug)]
pub enum BuildError {
    /// Every transaction needs a sender.
    MissingSender,
    /// A call, query, transfer or upgrade needs a receiver.
    MissingReceiver,
    /// A deploy or upgrade needs a code blob and its metadata.
    MissingCode,
    /// A state-mutating transaction needs a positive gas budget.
    MissingGasBudget,
    /// A deploy with a receiver, or code on a plain call: no such shape exists.
    ConflictingTransactionShape,
}

/// A validated, immutable transaction awaiting dispatch.
#[derive(Debug)]
pub struct PendingTx {
    sender: Address,
    receiver: Option<Address>,
    value: u128,
    gas: u64,
    payload: Vec<u8>,
    code: Option<Vec<u8>>,
    meta: Option<CodeMeta>,
    kind: TxKind,
}

/// The mathematical content of a pending transaction.
#[verifier::ext_equal]
pub struct TxView {
    pub sender: Seq<u8>,
    pub receiver: Option<Seq<u8>>,
    pub value: u128,
    pub gas: u64,
    pub payload: Seq<u8>,
    pub code: Option<Seq<u8>>,
    pub meta: Option<CodeMeta>,
    pub kind: TxKind,
}

impl View for PendingTx {
    type V = TxView;

    closed spec fn view(&self) -> TxView {
        TxView {
            sender: self.sender@,
            receiver: match self.receiver {
                Some(a) => Some(a@),
                None => None,
            },
            value: self.value,
            gas: self.gas,
            payload: self.payload@,
            code: match self.code {
                Some(ref c) => Some(c@),
                None => None,
            },
            meta: self.meta,
            kind: self.kind,
        }
    }
}

impl PendingTx {
    /// The shape of the transaction.
    pub fn kind(&self) -> (r: TxKind)
        ensures
            r == self@.kind,
    {
        self.kind
    }

    /// The encoded operation the transaction carries.
    pub fn payload(&self) -> (r: &Vec<u8>)
        ensures
            r@ == self@.payload,
    {
        &self.payload
    }

    /// The sender.
    pub fn sender(&self) -> (r: &Address)
        ensures
            r@ == self@.sender,
    {
        &self.sender
    }

    /// The receiver, absent for deploys.
    pub fn receiver(&self) -> (r: Option<&Address>)
        ensures
            match r {
                Some(a) => self@.receiver == Some(a@),
                None => self@.receiver is None,
            },
    {
        self.receiver.as_ref()
    }

    /// The native-currency transfer amount.
    pub fn value(&self) -> (r: u128)
        ensures
            r == self@.value,
    {
        self.value
    }

    /// The gas budget; zero only for queries.
    pub fn gas(&self) -> (r: u64)
        ensures
            r == self@.gas,
    {
        self.gas
    }

    /// The code blob, present for deploys and upgrades.
    pub fn code(&self) -> (r: Option<&Vec<u8>>)
        ensures
            match r {
                Some(c) => self@.code == Some(c@),
                None => self@.code is None,
            },
    {
        self.code.as_ref()
    }

    /// The code metadata, present for deploys and upgrades.
    pub fn meta(&self) -> (r: Option<CodeMeta>)
        ensures
            r == self@.meta,
    {
        self.meta
    }
}

/// What the builder has accumulated so far.
#[verifier::ext_equal]
pub struct BuilderView {
    pub kind: TxKind,
    pub sender: Option<Seq<u8>>,
    pub receiver: Option<Seq<u8>>,
    pub value: Option<u128>,
    pub gas: Option<u64>,
    pub payload: Option<Seq<u8>>,
    pub code: Option<Seq<u8>>,
    pub meta: Option<CodeMeta>,
}

/// Whether a transaction shape mutates ledger state and so needs gas.
pub open spec fn needs_gas(kind: TxKind) -> bool {
    kind != TxKind::Query
}

/// Whether a transaction shape installs code.
pub open spec fn carries_code(kind: TxKind) -> bool {
    kind == TxKind::Deploy || kind == TxKind::Upgrade
}

/// What building from an accumulated state gives: the validated
/// transaction, or the first error in validation order.
pub open spec fn build_spec(b: BuilderView) -> Result<TxView, BuildError> {
    if b.sender is None {
        Err(BuildError::MissingSender)
    } else if b.kind == TxKind::Deploy && b.receiver is Some {
        Err(BuildError::ConflictingTransactionShape)
    } else if !carries_code(b.kind) && b.code is Some {
        Err(BuildError::ConflictingTransactionShape)
    } else if carries_code(b.kind) && (b.code is None || b.meta is None) {
        Err(BuildError::MissingCode)
    } else if b.kind != TxKind::Deploy && b.receiver is None {
        Err(BuildError::MissingReceiver)
    } else if needs_gas(b.kind) && (b.gas is None || b.gas == Some(0u64)) {
        Err(BuildError::MissingGasBudget)
    } else {
        Ok(
            TxView {
                sender: b.sender->Some_0,
                receiver: b.receiver,
                value: match b.value {
                    Some(v) => v,
                    None => 0,
                },
                gas: match b.gas {
                    Some(g) => g,
                    None => 0,
                },
                payload: match b.payload {
                    Some(p) => p,
                    None => Seq::empty(),
                },
                code: b.code,
                meta: b.meta,
                kind: b.kind,
            },
        )
    }
}

/// The fluent builder. Each setter consumes and returns the builder;
/// `build` consumes it for good, so a built transaction is immutable and
/// rebuilding takes a fresh builder.
pub struct TxBuilder {
    kind: TxKind,
    sender: Option<Address>,
    receiver: Option<Address>,
    value: Option<u128>,
    gas: Option<u64>,
    payload: Option<Vec<u8>>,
    code: Option<Vec<u8>>,
    meta: Option<CodeMeta>,
}

impl View for TxBuilder {
    type V = BuilderView;

    closed spec fn view(&self) -> BuilderView {
        BuilderView {
            kind: self.kind,
            sender: match self.sender {
                Some(a) => Some(a@),
                None => None,
            },
            receiver: match self.receiver {
                Some(a) => Some(a@),
                None => None,
            },
            value: self.value,
            gas: self.gas,
            payload: match self.payload {
                Some(ref p) => Some(p@),
                None => None,
            },
            code: match self.code {
                Some(ref c) => Some(c@),
                None => None,
            },
            meta: self.meta,
        }
    }
}

impl TxBuilder {
    /// A fresh builder for one transaction shape, with nothing set.
    pub fn new(kind: TxKind) -> (r: TxBuilder)
        ensures
            r@ == (BuilderView {
                kind,
                sender: None,
                receiver: None,
                value: None,
                gas: None,
                payload: None,
                code: None,
                meta: None,
            }),
    {
        TxBuilder {
            kind,
            sender: None,
            receiver: None,
            value: None,
            gas: None,
            payload: None,
            code: None,
            meta: None,
        }
    }

    /// Set the sender.
    pub fn sender(self, a: Address) -> (r: TxBuilder)
        ensures
            r@ == (BuilderView { sender: Some(a@), ..self@ }),
    {
        TxBuilder { sender: Some(a), ..self }
    }

    /// Set the receiver.
    pub fn receiver(self, a: Address) -> (r: TxBuilder)
        ensures
            r@ == (BuilderView { receiver: Some(a@), ..self@ }),
    {
        TxBuilder { receiver: Some(a), ..self }
    }

    /// Set the native-currency transfer amount.
    pub fn value(self, v: u128) -> (r: TxBuilder)
        ensures
            r@ == (BuilderView { value: Some(v), ..self@ }),
    {
        TxBuilder { value: Some(v), ..self }
    }

    /// Set the gas budget.
    pub fn gas(self, g: u64) -> (r: TxBuilder)
        ensures
            r@ == (BuilderView { gas: Some(g), ..self@ }),
    {
        TxBuilder { gas: Some(g), ..self }
    }

    /// Set the encoded operation payload.
    pub fn payload(self, p: Vec<u8>) -> (r: TxBuilder)
        ensures
            r@ == (BuilderView { payload: Some(p@), ..self@ }),
    {
        TxBuilder { payload: Some(p), ..self }
    }

    /// Set the code blob and its metadata.
    pub fn code(self, c: Vec<u8>, m: CodeMeta) -> (r: TxBuilder)
        ensures
            r@ == (BuilderView { code: Some(c@), meta: Some(m), ..self@ }),
    {
        TxBuilder { code: Some(c), meta: Some(m), ..self }
    }

    /// Validate and build the pending transaction.
    pub fn build(self) -> (r: Result<PendingTx, BuildError>)
        ensures
            match r {
                Ok(tx) => build_spec(self@) == Ok::<TxView, BuildError>(tx@),
                Err(e) => build_spec(self@) == Err::<TxView, BuildError>(e),
            },
    {
        let sender = match self.sender {
            Some(a) => a,
            None => {
                return Err(BuildError::MissingSender);
            },
        };
        let is_deploy = match self.kind {
            TxKind::Deploy => true,
            _ => false,
        };
        let with_code = match self.kind {
            TxKind::Deploy => true,
            TxKind::Upgrade => true,
            _ => false,
        };
        if is_deploy && self.receiver.is_some() {
            return Err(BuildError::ConflictingTransactionShape);
        }
        if !with_code && self.code.is_some() {
            return Err(BuildError::ConflictingTransactionShape);
        }
        if with_code && (self.code.is_none() || self.meta.is_none()) {
            return Err(BuildError::MissingCode);
        }
        if !is_deploy && self.receiver.is_none() {
            return Err(BuildError::MissingReceiver);
        }
        let is_query = match self.kind {
            TxKind::Query => true,
            _ => false,
        };
        let gas: u64 = match self.gas {
            Some(g) => g,
            None => 0,
        };
        if !is_query && gas == 0 {
            return Err(BuildError::MissingGasBudget);
        }
        Ok(
            PendingTx {
                sender,
                receiver: self.receiver,
                value: match self.value {
                    Some(v) => v,
                    None => 0,
                },
                gas,
                payload: match self.payload {
                    Some(p) => p,
                    None => Vec::new(),
                },
                code: self.code,
                meta: self.meta,
                kind: self.kind,
            },
        )
    }
}

} // verus!
