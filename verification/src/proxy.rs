//! The typed contract proxy: bidirectional translation between domain
//! operations and wire-level payloads and results.
//!
//! A payload is the endpoint's name in ASCII, followed, for each argument,
//! by a separator byte and the lowercase hex of the argument's encoding.
//! Numeric arguments are encoded minimal big-endian; address arguments are
//! their canonical bytes.

use vstd::prelude::*;
use crate::address::{Address, is_address_bytes};
use crate::hex::{hex_of, is_hex_seq, unhex, encode_hex, lemma_hex_of_is_hex_seq,
    lemma_unhex_hex_of};
use crate::numeric::{be_of, be_val, top_encode_u128, top_decode_u128, lemma_be_of_props};

verus! {

/// The two declared contract interfaces.
#[derive(PartialEq, Eq, Structural, Clone, Copy, Debug)]
pub enum Interface {
    /// The counter contract: `init`, `add`, `sum`, `upgrade`.
    Primary,
    /// The contract that calls the counter: `init`, `callAdd`.
    Caller,
}

/// The named endpoints any declared interface exposes.
#[derive(PartialEq, Eq, Structural, Clone, Copy, Debug)]
pub enum OpName {
    Init,
    Add,
    Sum,
    Upgrade,
    CallAdd,
}

/// A typed argument of an operation.
pub enum Arg {
    /// An unsigned number.
    Num(u32),
    /// An on-chain address.
    Addr(Address),
}

/// The mathematical content of an argument.
pub enum ArgView {
    Num(u32),
    Addr(Seq<u8>),
}

impl View for Arg {
    type V = ArgView;

    open spec fn view(&self) -> ArgView {
        match self {
            Arg::Num(v) => ArgView::Num(*v),
            Arg::Addr(a) => ArgView::Addr(a@),
        }
    }
}

/// The declared parameter kinds.
#[derive(PartialEq, Eq, Structural, Clone, Copy, Debug)]
pub enum ArgKind {
    Numeric,
    Account,
}

/// The declared shape of an operation's result.
#[derive(PartialEq, Eq, Structural, Clone, Copy, Debug)]
pub enum ResultShape {
    /// The operation returns nothing.
    NoValue,
    /// The result bytes encode an unsigned number, big-endian.
    Numeric,
    /// The result bytes pass through unchanged.
    RawBytes,
}

/// A decoded execution result.
#[derive(Debug)]
pub enum DecodedValue {
    Unit,
    Num(u128),
    Bytes(Vec<u8>),
}

/// Interface or usage mismatches the proxy reports; never retried.
#[derive(PartialEq, Eq, Structural, Clone, Copy, Debug)]
pub enum ProxyError {
    /// The operation is not declared for the interface.
    UnknownOperation,
    /// An argument does not fit the declared parameter.
    ArgumentTypeMismatch,
    /// A result's bytes do not fit the declared shape.
    ResultDecodeError,
}

/// The parameter list an interface declares for an operation, if the
/// operation belongs to it.
pub open spec fn declared_args(iface: Interface, op: OpName) -> Option<Seq<ArgKind>> {
    match iface {
        Interface::Primary => match op {
            OpName::Init => Some(seq![ArgKind::Numeric]),
            OpName::Add => Some(seq![ArgKind::Numeric]),
            OpName::Sum => Some(Seq::empty()),
            OpName::Upgrade => Some(seq![ArgKind::Numeric]),
            OpName::CallAdd => None,
        },
        Interface::Caller => match op {
            OpName::Init => Some(seq![ArgKind::Account]),
            OpName::CallAdd => Some(seq![ArgKind::Numeric]),
            _ => None,
        },
    }
}

/// The result shape an interface declares for an operation.
pub open spec fn declared_result(iface: Interface, op: OpName) -> ResultShape {
    match (iface, op) {
        (Interface::Primary, OpName::Sum) => ResultShape::Numeric,
        (Interface::Primary, OpName::Upgrade) => ResultShape::Numeric,
        _ => ResultShape::NoValue,
    }
}

/// Whether an argument fits a declared parameter kind. An address argument
/// must carry a canonical encoding.
pub open spec fn arg_fits(kind: ArgKind, a: ArgView) -> bool {
    match (kind, a) {
        (ArgKind::Numeric, ArgView::Num(_)) => true,
        (ArgKind::Account, ArgView::Addr(s)) => is_address_bytes(s),
        _ => false,
    }
}

/// Whether an argument list fits a declared parameter list.
pub open spec fn args_fit(kinds: Seq<ArgKind>, args: Seq<ArgView>) -> bool {
    &&& kinds.len() == args.len()
    &&& forall|i: int| 0 <= i < kinds.len() ==> arg_fits(kinds[i], #[trigger] args[i])
}

/// The views of a vector of arguments.
pub open spec fn views_of(args: Seq<Arg>) -> Seq<ArgView> {
    args.map_values(|a: Arg| a@)
}

/// The bytes an argument encodes to, before hexing.
pub open spec fn arg_bytes(a: ArgView) -> Seq<u8> {
    match a {
        ArgView::Num(v) => be_of(v as nat),
        ArgView::Addr(s) => s,
    }
}

/// The encoded argument part of a payload: for each argument, the
/// separator then the hex of its bytes.
pub open spec fn args_wire(args: Seq<ArgView>) -> Seq<u8>
    decreases args.len(),
{
    if args.len() == 0 {
        Seq::empty()
    } else {
        seq![0x40u8] + hex_of(arg_bytes(args[0])) + args_wire(args.skip(1))
    }
}

/// The ASCII name of an endpoint on the wire.
pub open spec fn name_bytes(op: OpName) -> Seq<u8> {
    match op {
        OpName::Init => seq![0x69u8, 0x6e, 0x69, 0x74],
        OpName::Add => seq![0x61u8, 0x64, 0x64],
        OpName::Sum => seq![0x73u8, 0x75, 0x6d],
        OpName::Upgrade => seq![0x75u8, 0x70, 0x67, 0x72, 0x61, 0x64, 0x65],
        OpName::CallAdd => seq![0x63u8, 0x61, 0x6c, 0x6c, 0x41, 0x64, 0x64],
    }
}

/// The whole payload of an operation.
pub open spec fn payload_of(op: OpName, args: Seq<ArgView>) -> Seq<u8> {
    name_bytes(op) + args_wire(args)
}

fn push_name(out: &mut Vec<u8>, op: OpName)
    ensures
        final(out)@ == old(out)@ + name_bytes(op),
{
    let ghost prev = out@;
    match op {
        OpName::Init => {
            out.push(0x69);
            out.push(0x6e);
            out.push(0x69);
            out.push(0x74);
        },
        OpName::Add => {
            out.push(0x61);
            out.push(0x64);
            out.push(0x64);
        },
        OpName::Sum => {
            out.push(0x73);
            out.push(0x75);
            out.push(0x6d);
        },
        OpName::Upgrade => {
            out.push(0x75);
            out.push(0x70);
            out.push(0x67);
            out.push(0x72);
            out.push(0x61);
            out.push(0x64);
            out.push(0x65);
        },
        OpName::CallAdd => {
            out.push(0x63);
            out.push(0x61);
            out.push(0x6c);
            out.push(0x6c);
            out.push(0x41);
            out.push(0x64);
            out.push(0x64);
        },
    }
    proof {
        assert(out@ =~= prev + name_bytes(op));
    }
}

fn push_arg(out: &mut Vec<u8>, arg_data: &Vec<u8>)
    ensures
        final(out)@ == old(out)@ + seq![0x40u8] + hex_of(arg_data@),
{
    let ghost prev = out@;
    out.push(0x40);
    let mut h = encode_hex(arg_data);
    out.append(&mut h);
    proof {
        assert(out@ =~= prev + seq![0x40u8] + hex_of(arg_data@));
    }
}

/// Encode one operation against a declared interface.
///
/// Fails with `UnknownOperation` exactly when the interface does not
/// declare the operation, and with `ArgumentTypeMismatch` exactly when the
/// arguments do not fit the declared parameters; otherwise returns the
/// payload of the operation.
pub fn encode_operation(iface: Interface, op: OpName, args: &Vec<Arg>) -> (r: Result<
    Vec<u8>,
    ProxyError,
>)
    ensures
        match r {
            Ok(p) => {
                &&& declared_args(iface, op) is Some
                &&& args_fit(declared_args(iface, op)->Some_0, views_of(args@))
                &&& p@ == payload_of(op, views_of(args@))
            },
            Err(e) => match e {
                ProxyError::UnknownOperation => declared_args(iface, op) is None,
                ProxyError::ArgumentTypeMismatch => declared_args(iface, op) is Some && !args_fit(
                    declared_args(iface, op)->Some_0,
                    views_of(args@),
                ),
                ProxyError::ResultDecodeError => false,
            },
        },
{
    let declared_len: usize = match (iface, op) {
        (Interface::Primary, OpName::Init) => 1,
        (Interface::Primary, OpName::Add) => 1,
        (Interface::Primary, OpName::Sum) => 0,
        (Interface::Primary, OpName::Upgrade) => 1,
        (Interface::Caller, OpName::Init) => 1,
        (Interface::Caller, OpName::CallAdd) => 1,
        _ => {
            return Err(ProxyError::UnknownOperation);
        },
    };
    if args.len() != declared_len {
        return Err(ProxyError::ArgumentTypeMismatch);
    }
    let mut out: Vec<u8> = Vec::new();
    push_name(&mut out, op);
    if declared_len == 0 {
        proof {
            assert(views_of(args@).len() == 0);
            assert(out@ =~= payload_of(op, views_of(args@)));
        }
        return Ok(out);
    }
    let wants_account: bool = match (iface, op) {
        (Interface::Caller, OpName::Init) => true,
        _ => false,
    };
    proof {
        assert(views_of(args@).len() == 1);
        assert(views_of(args@)[0] == args@[0]@);
    }
    match &args[0] {
        Arg::Num(v) => {
            if wants_account {
                return Err(ProxyError::ArgumentTypeMismatch);
            }
            let data = top_encode_u128(*v as u128);
            push_arg(&mut out, &data);
            proof {
                assert(views_of(args@).skip(1).len() == 0);
                assert(args_wire(views_of(args@).skip(1)) =~= Seq::<u8>::empty());
                assert(args_wire(views_of(args@)) =~= seq![0x40u8] + hex_of(
                    arg_bytes(views_of(args@)[0]),
                ));
                assert(out@ =~= payload_of(op, views_of(args@)));
            }
            Ok(out)
        },
        Arg::Addr(a) => {
            if !wants_account {
                return Err(ProxyError::ArgumentTypeMismatch);
            }
            if a.as_bytes().len() != crate::address::ADDRESS_LEN {
                return Err(ProxyError::ArgumentTypeMismatch);
            }
            push_arg(&mut out, a.as_bytes());
            proof {
                assert(views_of(args@).skip(1).len() == 0);
                assert(args_wire(views_of(args@).skip(1)) =~= Seq::<u8>::empty());
                assert(args_wire(views_of(args@)) =~= seq![0x40u8] + hex_of(
                    arg_bytes(views_of(args@)[0]),
                ));
                assert(out@ =~= payload_of(op, views_of(args@)));
            }
            Ok(out)
        },
    }
}

/// Decode a raw execution result against a declared result shape.
///
/// For no value the bytes must be empty; for a numeric shape they are read
/// as a big-endian unsigned number, `ResultDecodeError` exactly when they
/// are longer than the widest value this client holds; raw bytes pass
/// through unchanged.
pub fn decode_result(shape: ResultShape, raw: Vec<u8>) -> (r: Result<DecodedValue, ProxyError>)
    ensures
        match r {
            Ok(v) => match shape {
                ResultShape::NoValue => raw@.len() == 0 && v is Unit,
                ResultShape::Numeric => raw@.len() <= 16 && (v matches DecodedValue::Num(n) && n
                    == be_val(raw@)),
                ResultShape::RawBytes => v matches DecodedValue::Bytes(b) && b@ == raw@,
            },
            Err(e) => {
                &&& e == ProxyError::ResultDecodeError
                &&& match shape {
                    ResultShape::NoValue => raw@.len() != 0,
                    ResultShape::Numeric => raw@.len() > 16,
                    ResultShape::RawBytes => false,
                }
            },
        },
{
    match shape {
        ResultShape::NoValue => {
            if raw.len() == 0 {
                Ok(DecodedValue::Unit)
            } else {
                Err(ProxyError::ResultDecodeError)
            }
        },
        ResultShape::Numeric => match top_decode_u128(&raw) {
            Some(n) => Ok(DecodedValue::Num(n)),
            None => Err(ProxyError::ResultDecodeError),
        },
        ResultShape::RawBytes => Ok(DecodedValue::Bytes(raw)),
    }
}

/// What a payload stands for when read as the named operation with one
/// numeric argument: the argument's value, if the payload has that shape.
pub open spec fn parse_arg_num(p: Seq<u8>, op: OpName) -> Option<u128> {
    let nl = name_bytes(op).len() as int;
    if p.len() >= nl + 1 && p.subrange(0, nl) == name_bytes(op) && p[nl] == 0x40 && is_hex_seq(
        p.skip(nl + 1),
    ) && unhex(p.skip(nl + 1)).len() <= 16 {
        Some(be_val(unhex(p.skip(nl + 1))) as u128)
    } else {
        None
    }
}

/// What a payload stands for when read as the named operation with one
/// address argument: the address bytes, if the payload has that shape.
pub open spec fn parse_arg_addr(p: Seq<u8>, op: OpName) -> Option<Seq<u8>> {
    let nl = name_bytes(op).len() as int;
    if p.len() >= nl + 1 && p.subrange(0, nl) == name_bytes(op) && p[nl] == 0x40 && is_hex_seq(
        p.skip(nl + 1),
    ) && is_address_bytes(unhex(p.skip(nl + 1))) {
        Some(unhex(p.skip(nl + 1)))
    } else {
        None
    }
}

/// Reading back an encoded numeric operation gives the argument again.
pub proof fn lemma_parse_num_roundtrip(op: OpName, v: u32)
    ensures
        parse_arg_num(payload_of(op, seq![ArgView::Num(v)]), op) == Some(v as u128),
{
    let args = seq![ArgView::Num(v)];
    let data = be_of(v as nat);
    assert(args.skip(1).len() == 0);
    assert(args_wire(args.skip(1)) =~= Seq::<u8>::empty());
    let p = payload_of(op, args);
    let nl = name_bytes(op).len() as int;
    assert(p =~= name_bytes(op) + seq![0x40u8] + hex_of(data));
    assert(p.subrange(0, nl) =~= name_bytes(op));
    assert(p[nl] == 0x40);
    assert(p.skip(nl + 1) =~= hex_of(data));
    lemma_hex_of_is_hex_seq(data);
    lemma_unhex_hex_of(data);
    lemma_be_of_props(v as nat);
    crate::numeric::lemma_pow256_16();
    crate::numeric::lemma_be_of_short(v as nat);
}

/// Reading back an encoded address operation gives the address again.
pub proof fn lemma_parse_addr_roundtrip(op: OpName, a: Seq<u8>)
    requires
        is_address_bytes(a),
    ensures
        parse_arg_addr(payload_of(op, seq![ArgView::Addr(a)]), op) == Some(a),
{
    let args = seq![ArgView::Addr(a)];
    assert(args.skip(1).len() == 0);
    assert(args_wire(args.skip(1)) =~= Seq::<u8>::empty());
    let p = payload_of(op, args);
    let nl = name_bytes(op).len() as int;
    assert(p =~= name_bytes(op) + seq![0x40u8] + hex_of(a));
    assert(p.subrange(0, nl) =~= name_bytes(op));
    assert(p[nl] == 0x40);
    assert(p.skip(nl + 1) =~= hex_of(a));
    lemma_hex_of_is_hex_seq(a);
    lemma_unhex_hex_of(a);
}

fn name_vec(op: OpName) -> (r: Vec<u8>)
    ensures
        r@ == name_bytes(op),
{
    let mut v: Vec<u8> = Vec::new();
    push_name(&mut v, op);
    v
}

fn has_op_prefix(p: &Vec<u8>, op: OpName) -> (r: bool)
    ensures
        r <==> (p@.len() >= name_bytes(op).len() && p@.subrange(0, name_bytes(op).len() as int)
            == name_bytes(op)),
{
    let nv = name_vec(op);
    if p.len() < nv.len() {
        return false;
    }
    let mut i: usize = 0;
    while i < nv.len()
        invariant
            i <= nv@.len() <= p@.len(),
            nv@ == name_bytes(op),
            forall|j: int| 0 <= j < i ==> p@[j] == nv@[j],
        decreases nv@.len() - i,
    {
        if p[i] != nv[i] {
            proof {
                assert(p@.subrange(0, nv@.len() as int)[i as int] != nv@[i as int]);
            }
            return false;
        }
        i = i + 1;
    }
    proof {
        assert(p@.subrange(0, nv@.len() as int) =~= nv@);
    }
    true
}

/// Read a payload as the named operation with one numeric argument.
pub fn parse_payload_num(p: &Vec<u8>, op: OpName) -> (r: Option<u128>)
    ensures
        r == parse_arg_num(p@, op),
{
    let nv = name_vec(op);
    if !has_op_prefix(p, op) {
        return None;
    }
    if p.len() < nv.len() + 1 {
        return None;
    }
    if p[nv.len()] != 0x40 {
        return None;
    }
    let rest = crate::hex::copy_range(p, nv.len() + 1, p.len());
    proof {
        assert(rest@ =~= p@.skip(name_bytes(op).len() as int + 1));
    }
    let data = match crate::hex::decode_hex(&rest) {
        Some(d) => d,
        None => {
            return None;
        },
    };
    proof {
        crate::hex::lemma_unhex_hex_of(data@);
    }
    match top_decode_u128(&data) {
        Some(n) => Some(n),
        None => None,
    }
}

/// Read a payload as the named operation with one address argument.
pub fn parse_payload_addr(p: &Vec<u8>, op: OpName) -> (r: Option<Address>)
    ensures
        match r {
            Some(a) => parse_arg_addr(p@, op) == Some(a@) && a.wf(),
            None => parse_arg_addr(p@, op) is None,
        },
{
    let nv = name_vec(op);
    if !has_op_prefix(p, op) {
        return None;
    }
    if p.len() < nv.len() + 1 {
        return None;
    }
    if p[nv.len()] != 0x40 {
        return None;
    }
    let rest = crate::hex::copy_range(p, nv.len() + 1, p.len());
    proof {
        assert(rest@ =~= p@.skip(name_bytes(op).len() as int + 1));
    }
    let data = match crate::hex::decode_hex(&rest) {
        Some(d) => d,
        None => {
            return None;
        },
    };
    proof {
        crate::hex::lemma_unhex_hex_of(data@);
    }
    Address::from_bytes(data)
}

/// Whether a payload is exactly the bare name of an operation.
pub fn is_bare_payload(p: &Vec<u8>, op: OpName) -> (r: bool)
    ensures
        r <==> p@ == name_bytes(op),
{
    let nv = name_vec(op);
    if p.len() != nv.len() {
        proof {
            assert(p@.len() != name_bytes(op).len());
        }
        return false;
    }
    let r = has_op_prefix(p, op);
    proof {
        if r {
            assert(p@.subrange(0, name_bytes(op).len() as int) =~= p@);
        } else {
            assert(p@.subrange(0, p@.len() as int) =~= p@);
        }
    }
    r
}

} // verus!
