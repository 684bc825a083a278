use crash_interact::hex::{encode_hex, decode_hex};
use crash_interact::numeric::{top_encode_u128, top_decode_u128};
use crash_interact::proxy::{Interface, OpName, Arg, ResultShape, DecodedValue, ProxyError,
    encode_operation, decode_result, parse_payload_num, parse_payload_addr, is_bare_payload};
use crash_interact::address::{Address, AddressBook, Role, load_book};
use crash_interact::builder::{TxBuilder, TxKind, CodeMeta, BuildError};

fn addr(byte: u8) -> Address {
    Address::from_bytes(vec![byte; 32]).expect("32 bytes make an address")
}

#[test]
fn hex_encodes_lowercase_pairs() {
    assert_eq!(encode_hex(&vec![0x0f, 0x2a, 0x00]), b"0f2a00".to_vec());
    assert_eq!(encode_hex(&vec![]), Vec::<u8>::new());
}

#[test]
fn hex_round_trip() {
    let data = vec![0u8, 1, 2, 0xfe, 0xff, 0x10];
    let enc = encode_hex(&data);
    assert_eq!(decode_hex(&enc), Some(data));
}

#[test]
fn hex_rejects_odd_length_and_bad_digits() {
    assert_eq!(decode_hex(&b"abc".to_vec()), None);
    assert_eq!(decode_hex(&b"0G".to_vec()), None);
    assert_eq!(decode_hex(&b"AB".to_vec()), None);
}

#[test]
fn numeric_encoding_is_minimal_big_endian() {
    assert_eq!(top_encode_u128(0), Vec::<u8>::new());
    assert_eq!(top_encode_u128(5), vec![5]);
    assert_eq!(top_encode_u128(0x1234), vec![0x12, 0x34]);
    assert_eq!(top_encode_u128(256), vec![1, 0]);
}

#[test]
fn numeric_round_trip() {
    for v in [0u128, 1, 255, 256, 65535, 1 << 40, u128::MAX] {
        assert_eq!(top_decode_u128(&top_encode_u128(v)), Some(v));
    }
}

#[test]
fn numeric_decode_accepts_leading_zeros_and_rejects_overlong() {
    assert_eq!(top_decode_u128(&vec![0, 0, 5]), Some(5));
    assert_eq!(top_decode_u128(&vec![1; 17]), None);
    assert_eq!(top_decode_u128(&vec![0xff; 16]), Some(u128::MAX));
}

#[test]
fn encode_add_operation_exact_payload() {
    let p = encode_operation(Interface::Primary, OpName::Add, &vec![Arg::Num(5)])
        .expect("declared operation encodes");
    assert_eq!(p, b"add@05".to_vec());
}

#[test]
fn encode_sum_operation_is_bare_name() {
    let p = encode_operation(Interface::Primary, OpName::Sum, &vec![]).expect("sum takes no args");
    assert_eq!(p, b"sum".to_vec());
    assert!(is_bare_payload(&p, OpName::Sum));
}

#[test]
fn encode_caller_init_carries_hexed_address() {
    let a = addr(0xab);
    let p = encode_operation(Interface::Caller, OpName::Init, &vec![Arg::Addr(a)])
        .expect("caller init encodes");
    let mut expected = b"init@".to_vec();
    expected.extend(std::iter::repeat(b"ab".to_vec()).take(32).flatten());
    assert_eq!(p, expected);
}

#[test]
fn encode_rejects_undeclared_operation() {
    let r = encode_operation(Interface::Primary, OpName::CallAdd, &vec![Arg::Num(1)]);
    assert_eq!(r.unwrap_err(), ProxyError::UnknownOperation);
}

#[test]
fn encode_rejects_argument_mismatch() {
    let r = encode_operation(Interface::Primary, OpName::Add, &vec![]);
    assert_eq!(r.unwrap_err(), ProxyError::ArgumentTypeMismatch);
    let r = encode_operation(Interface::Primary, OpName::Add, &vec![Arg::Addr(addr(1))]);
    assert_eq!(r.unwrap_err(), ProxyError::ArgumentTypeMismatch);
    let r = encode_operation(Interface::Caller, OpName::Init, &vec![Arg::Num(1)]);
    assert_eq!(r.unwrap_err(), ProxyError::ArgumentTypeMismatch);
}

#[test]
fn parse_inverts_encode() {
    let p = encode_operation(Interface::Primary, OpName::Add, &vec![Arg::Num(77)]).unwrap();
    assert_eq!(parse_payload_num(&p, OpName::Add), Some(77));
    assert_eq!(parse_payload_num(&p, OpName::CallAdd), None);
    let a = addr(3);
    let p = encode_operation(Interface::Caller, OpName::Init, &vec![Arg::Addr(a.clone())]).unwrap();
    let back = parse_payload_addr(&p, OpName::Init).expect("address argument reads back");
    assert!(back == a);
}

#[test]
fn decode_result_by_shape() {
    match decode_result(ResultShape::NoValue, vec![]).unwrap() {
        DecodedValue::Unit => {},
        _ => panic!("empty bytes decode to unit"),
    }
    match decode_result(ResultShape::Numeric, vec![0x01, 0x00]).unwrap() {
        DecodedValue::Num(n) => assert_eq!(n, 256),
        _ => panic!("numeric shape decodes to a number"),
    }
    match decode_result(ResultShape::RawBytes, vec![9, 8]).unwrap() {
        DecodedValue::Bytes(b) => assert_eq!(b, vec![9, 8]),
        _ => panic!("raw shape passes bytes through"),
    }
}

#[test]
fn decode_result_errors() {
    let r = decode_result(ResultShape::NoValue, vec![1]);
    assert_eq!(r.unwrap_err(), ProxyError::ResultDecodeError);
    let r = decode_result(ResultShape::Numeric, vec![1; 17]);
    assert_eq!(r.unwrap_err(), ProxyError::ResultDecodeError);
}

#[test]
fn address_rejects_wrong_width() {
    assert!(Address::from_bytes(vec![1; 31]).is_none());
    assert!(Address::from_bytes(vec![1; 33]).is_none());
    assert!(Address::from_bytes(vec![]).is_none());
}

#[test]
fn address_equality_is_byte_equality() {
    assert!(addr(1) == addr(1));
    assert!(addr(1) != addr(2));
}

#[test]
fn book_round_trip_survives_restart() {
    let mut book = AddressBook::new();
    book.set(Role::Primary, addr(0x11));
    book.set(Role::Caller, addr(0x22));
    let stored = book.to_bytes();
    let reloaded = load_book(&stored).expect("a saved book loads");
    assert!(reloaded.get(Role::Primary).unwrap() == &addr(0x11));
    assert!(reloaded.get(Role::Caller).unwrap() == &addr(0x22));
}

#[test]
fn book_round_trip_with_unbound_roles() {
    let book = AddressBook::new();
    let stored = book.to_bytes();
    let reloaded = load_book(&stored).expect("an empty book loads");
    assert!(reloaded.get(Role::Primary).is_none());
    assert!(reloaded.get(Role::Caller).is_none());

    let mut half = AddressBook::new();
    half.set(Role::Primary, addr(0x33));
    let reloaded = load_book(&half.to_bytes()).expect("a half-bound book loads");
    assert!(reloaded.get(Role::Primary).unwrap() == &addr(0x33));
    assert!(reloaded.get(Role::Caller).is_none());
}

#[test]
fn book_load_rejects_garbage() {
    assert!(load_book(&b"nonsense".to_vec()).is_none());
    assert!(load_book(&vec![]).is_none());
    let mut book = AddressBook::new();
    book.set(Role::Primary, addr(1));
    let mut stored = book.to_bytes();
    stored.push(0x30);
    assert!(load_book(&stored).is_none());
}

#[test]
fn builder_validates_required_fields() {
    let r = TxBuilder::new(TxKind::Call).build();
    assert_eq!(r.unwrap_err(), BuildError::MissingSender);

    let r = TxBuilder::new(TxKind::Call).sender(addr(1)).build();
    assert_eq!(r.unwrap_err(), BuildError::MissingReceiver);

    let r = TxBuilder::new(TxKind::Deploy).sender(addr(1)).gas(1).build();
    assert_eq!(r.unwrap_err(), BuildError::MissingCode);

    let r = TxBuilder::new(TxKind::Call).sender(addr(1)).receiver(addr(2)).build();
    assert_eq!(r.unwrap_err(), BuildError::MissingGasBudget);

    let r = TxBuilder::new(TxKind::Call).sender(addr(1)).receiver(addr(2)).gas(0).build();
    assert_eq!(r.unwrap_err(), BuildError::MissingGasBudget);
}

#[test]
fn builder_rejects_conflicting_shapes() {
    let meta = CodeMeta { upgradeable: true };
    let r = TxBuilder::new(TxKind::Deploy)
        .sender(addr(1))
        .receiver(addr(2))
        .gas(1)
        .code(vec![1], meta)
        .build();
    assert_eq!(r.unwrap_err(), BuildError::ConflictingTransactionShape);

    let r = TxBuilder::new(TxKind::Call)
        .sender(addr(1))
        .receiver(addr(2))
        .gas(1)
        .code(vec![1], meta)
        .build();
    assert_eq!(r.unwrap_err(), BuildError::ConflictingTransactionShape);
}

#[test]
fn builder_query_needs_no_gas() {
    let tx = TxBuilder::new(TxKind::Query)
        .sender(addr(1))
        .receiver(addr(2))
        .payload(b"sum".to_vec())
        .build()
        .expect("a gas-free query builds");
    assert_eq!(tx.gas(), 0);
    assert_eq!(tx.payload(), &b"sum".to_vec());
}
