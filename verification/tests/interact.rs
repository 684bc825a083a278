use crash_interact::address::{Address, AddressBook, Role, load_book};
use crash_interact::client::{CrashInteract, InteractError};
use crash_interact::ledger::{LedgerModel, FailKind};
use crash_interact::cli::{InteractCli, InteractCliCommand, AddArgs, UpgradeArgs, MultiDeployArgs};

fn sender() -> Address {
    Address::from_bytes(vec![7; 32]).expect("32 bytes make an address")
}

fn primary_code() -> Vec<u8> {
    vec![0xde, 0xad, 0xbe, 0xef]
}

fn caller_code() -> Vec<u8> {
    vec![0xca, 0x11, 0xee]
}

fn fresh_pair() -> (CrashInteract, LedgerModel) {
    let client = CrashInteract::new(sender(), primary_code(), caller_code(), AddressBook::new());
    let ledger = LedgerModel::new(primary_code(), caller_code());
    (client, ledger)
}

fn expected_address(seed: u64) -> Vec<u8> {
    let mut v = vec![0u8; 24];
    v.extend_from_slice(&seed.to_be_bytes());
    v
}

#[test]
fn deploy_binds_primary_to_fresh_address() {
    let (mut client, mut ledger) = fresh_pair();
    let a = client.deploy(&mut ledger).expect("deploy succeeds on a fresh ledger");
    assert_eq!(a.as_bytes(), &expected_address(0));
    assert!(client.book().get(Role::Primary).unwrap() == &a);
    assert_eq!(client.get_sum(&ledger), Ok(0));
}

#[test]
fn operations_without_deploy_fail_cleanly() {
    let (mut client, mut ledger) = fresh_pair();
    assert_eq!(client.add(&mut ledger, 5), Err(InteractError::MissingDependency));
    assert_eq!(client.get_sum(&ledger), Err(InteractError::MissingDependency));
    assert_eq!(client.feed_contract_egld(&mut ledger), Err(InteractError::MissingDependency));
    assert_eq!(client.upgrade(&mut ledger, 1), Err(InteractError::MissingDependency));
    assert_eq!(client.call_caller(&mut ledger, 1), Err(InteractError::MissingDependency));
    assert!(client.deploy_caller(&mut ledger).unwrap_err() == InteractError::MissingDependency);
}

#[test]
fn add_then_sum_round_trip() {
    let (mut client, mut ledger) = fresh_pair();
    client.deploy(&mut ledger).unwrap();
    client.add(&mut ledger, 42).expect("add succeeds against a deployed counter");
    assert_eq!(client.get_sum(&ledger), Ok(42));
    // repeated queries with no intervening add are idempotent
    assert_eq!(client.get_sum(&ledger), Ok(42));
    client.add(&mut ledger, 8).unwrap();
    assert_eq!(client.get_sum(&ledger), Ok(50));
}

#[test]
fn upgrade_resets_sum_to_new_value_exactly() {
    let (mut client, mut ledger) = fresh_pair();
    client.deploy(&mut ledger).unwrap();
    client.add(&mut ledger, 999).unwrap();
    let s = client.upgrade(&mut ledger, 123).expect("upgrade succeeds and checks the sum");
    assert_eq!(s, 123);
    assert_eq!(client.get_sum(&ledger), Ok(123));
}

#[test]
fn call_caller_matches_direct_add() {
    // one pair driven through the caller contract
    let (mut via_caller, mut ledger_a) = fresh_pair();
    via_caller.deploy(&mut ledger_a).unwrap();
    via_caller.deploy_caller(&mut ledger_a).unwrap();
    via_caller.call_caller(&mut ledger_a, 31).unwrap();

    // one pair driven directly
    let (mut direct, mut ledger_b) = fresh_pair();
    direct.deploy(&mut ledger_b).unwrap();
    direct.add(&mut ledger_b, 31).unwrap();

    assert_eq!(via_caller.get_sum(&ledger_a), Ok(31));
    assert_eq!(direct.get_sum(&ledger_b), Ok(31));
}

#[test]
fn scenario_deploy_caller_then_forwarded_add() {
    let (mut client, mut ledger) = fresh_pair();
    let a1 = client.deploy(&mut ledger).expect("primary deploys at the first address");
    assert_eq!(a1.as_bytes(), &expected_address(0));
    let a2 = client.deploy_caller(&mut ledger).expect("caller deploys against the primary");
    assert_eq!(a2.as_bytes(), &expected_address(1));
    client.call_caller(&mut ledger, 5).expect("the forwarded add lands");
    assert_eq!(client.get_sum(&ledger), Ok(5));
}

#[test]
fn multi_deploy_dispatches_count_and_keeps_last() {
    let (mut client, mut ledger) = fresh_pair();
    let addrs = client.multi_deploy(&mut ledger, 3).expect("a batch of three deploys");
    assert_eq!(addrs.len(), 3);
    assert_eq!(addrs[0].as_bytes(), &expected_address(0));
    assert_eq!(addrs[1].as_bytes(), &expected_address(1));
    assert_eq!(addrs[2].as_bytes(), &expected_address(2));
    // the book keeps the address of the third dispatched deploy, not the
    // first or second
    let bound = client.book().get(Role::Primary).expect("primary is bound after the batch");
    assert!(bound == &addrs[2]);
    assert!(bound.as_bytes() != &expected_address(0));
    assert!(bound.as_bytes() != &expected_address(1));
}

#[test]
fn multi_deploy_of_zero_changes_nothing() {
    let (mut client, mut ledger) = fresh_pair();
    let r = client.multi_deploy(&mut ledger, 0);
    assert!(r.unwrap_err() == InteractError::InvalidCount);
    assert!(client.book().get(Role::Primary).is_none());
    // the ledger saw no dispatch: the next deploy still gets the first address
    let a = client.deploy(&mut ledger).unwrap();
    assert_eq!(a.as_bytes(), &expected_address(0));
}

#[test]
fn feed_succeeds_against_deployed_counter() {
    let (mut client, mut ledger) = fresh_pair();
    client.deploy(&mut ledger).unwrap();
    client.feed_contract_egld(&mut ledger).expect("a pure value transfer lands");
}

#[test]
fn dangling_book_entry_reports_unknown_contract() {
    let mut book = AddressBook::new();
    book.set(Role::Primary, Address::from_bytes(vec![9; 32]).unwrap());
    let client = CrashInteract::new(sender(), primary_code(), caller_code(), book);
    let ledger = LedgerModel::new(primary_code(), caller_code());
    assert_eq!(
        client.get_sum(&ledger),
        Err(InteractError::Dispatch(FailKind::UnknownContract))
    );
}

#[test]
fn book_persists_across_simulated_restart() {
    let (mut client, mut ledger) = fresh_pair();
    let a = client.deploy(&mut ledger).unwrap();
    let stored = client.book().to_bytes();

    // a new process: reload the book and open a fresh session against the
    // same ledger
    let restored = load_book(&stored).expect("the stored book loads");
    assert!(restored.get(Role::Primary).unwrap() == &a);
    let client2 = CrashInteract::new(sender(), primary_code(), caller_code(), restored);
    assert_eq!(client2.get_sum(&ledger), Ok(0));
}

#[test]
fn cli_values_carry_their_arguments() {
    let cli = InteractCli::default();
    assert!(cli.command.is_none());
    let add = InteractCliCommand::Add(AddArgs { value: 4 });
    assert_eq!(add, InteractCliCommand::Add(AddArgs { value: 4 }));
    assert_eq!(AddArgs::default().value, 0);
    assert_eq!(UpgradeArgs::default().value, 0);
    assert_eq!(MultiDeployArgs::default().count, 0);
    let md = InteractCliCommand::MultiDeploy(MultiDeployArgs { count: 3 });
    assert!(md != InteractCliCommand::Deploy);
}
