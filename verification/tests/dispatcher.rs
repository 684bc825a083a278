use crash_interact::address::{Address, AddressBook, Role};
use crash_interact::builder::{TxBuilder, TxKind, CodeMeta};
use crash_interact::client::{CrashInteract, InteractError};
use crash_interact::ledger::{LedgerModel, Outcome, FailKind, dispatch_one};
use crash_interact::proxy::{Interface, OpName, Arg, encode_operation};

fn sender() -> Address {
    Address::from_bytes(vec![7; 32]).expect("32 bytes make an address")
}

fn primary_code() -> Vec<u8> {
    vec![0xde, 0xad, 0xbe, 0xef]
}

fn caller_code() -> Vec<u8> {
    vec![0xca, 0x11, 0xee]
}

/// Deploy a counter by hand, with upgrades forbidden in the metadata.
fn deploy_locked_counter(ledger: &mut LedgerModel) -> Address {
    let payload = encode_operation(Interface::Primary, OpName::Init, &vec![Arg::Num(0)]).unwrap();
    let tx = TxBuilder::new(TxKind::Deploy)
        .sender(sender())
        .gas(30_000_000)
        .payload(payload)
        .code(primary_code(), CodeMeta { upgradeable: false })
        .build()
        .expect("a complete deploy builds");
    match dispatch_one(ledger, &tx) {
        Outcome::Deployed(a) => a,
        _ => panic!("deploying known code succeeds"),
    }
}

#[test]
fn upgrade_needs_upgradeable_metadata() {
    let mut ledger = LedgerModel::new(primary_code(), caller_code());
    let locked = deploy_locked_counter(&mut ledger);
    let mut book = AddressBook::new();
    book.set(Role::Primary, locked);
    let mut client = CrashInteract::new(sender(), primary_code(), caller_code(), book);
    assert_eq!(
        client.upgrade(&mut ledger, 9),
        Err(InteractError::Dispatch(FailKind::NotUpgradeable))
    );
}

#[test]
fn deploy_of_unknown_code_is_rejected() {
    let mut ledger = LedgerModel::new(primary_code(), caller_code());
    let payload = encode_operation(Interface::Primary, OpName::Init, &vec![Arg::Num(0)]).unwrap();
    let tx = TxBuilder::new(TxKind::Deploy)
        .sender(sender())
        .gas(30_000_000)
        .payload(payload)
        .code(vec![1, 2, 3], CodeMeta { upgradeable: true })
        .build()
        .unwrap();
    assert!(matches!(dispatch_one(&mut ledger, &tx), Outcome::Failed(FailKind::WrongCode)));
}

#[test]
fn transfer_with_payload_has_no_shape() {
    let mut ledger = LedgerModel::new(primary_code(), caller_code());
    let counter = deploy_locked_counter(&mut ledger);
    let tx = TxBuilder::new(TxKind::Transfer)
        .sender(sender())
        .receiver(counter)
        .value(5)
        .gas(30_000_000)
        .payload(vec![1])
        .build()
        .unwrap();
    assert!(matches!(dispatch_one(&mut ledger, &tx), Outcome::Failed(FailKind::WrongShape)));
}

#[test]
fn wrong_endpoint_against_counter_is_bad_payload() {
    let mut ledger = LedgerModel::new(primary_code(), caller_code());
    let counter = deploy_locked_counter(&mut ledger);
    // binding the primary role to the counter and asking the caller's
    // endpoint of it reaches the wrong interface
    let mut book = AddressBook::new();
    book.set(Role::Caller, counter);
    let mut client = CrashInteract::new(sender(), primary_code(), caller_code(), book);
    assert_eq!(
        client.call_caller(&mut ledger, 3),
        Err(InteractError::Dispatch(FailKind::BadPayload))
    );
}

#[test]
fn upgrade_payload_encodes_exactly() {
    let p = encode_operation(Interface::Primary, OpName::Upgrade, &vec![Arg::Num(0x7b)]).unwrap();
    assert_eq!(p, b"upgrade@7b".to_vec());
}
