use yee_assets::assets::Module;
use yee_assets::encoding::shard_code_of;
use yee_assets::types::{DispatchError, Origin};

fn new_test_ext() -> Module {
    Module::new(0)
}

fn sc(who: u64) -> Vec<u8> {
    shard_code_of(who)
}

fn issue(m: &mut Module, who: u64, total: u64) -> Result<(), DispatchError> {
    m.issue(Origin::signed(who), b"TOKEN".to_vec(), total, 0)
}

fn transfer(m: &mut Module, who: u64, id: u32, target: u64, amount: u64) -> Result<(), DispatchError> {
    m.transfer(Origin::signed(who), sc(who), id, target, amount, 0, 0)
}

fn assert_noop(m: &mut Module, r: Result<(), DispatchError>, msg: &str, events_before: usize) {
    match r {
        Err(e) => assert_eq!(e.message(), msg),
        Ok(()) => panic!("call was expected to fail"),
    }
    assert_eq!(m.events().len(), events_before);
}

#[test]
fn issuing_asset_units_to_issuer_should_work() {
    let mut m = new_test_ext();
    assert_eq!(issue(&mut m, 1, 100), Ok(()));
    assert_eq!(m.balance(sc(1), 0, 1), 100);
}

#[test]
fn querying_total_supply_should_work() {
    let mut m = new_test_ext();
    assert_eq!(issue(&mut m, 1, 100), Ok(()));
    assert_eq!(m.balance(sc(1), 0, 1), 100);
    assert_eq!(transfer(&mut m, 1, 0, 2, 50), Ok(()));
    assert_eq!(m.balance(sc(1), 0, 1), 50);
    assert_eq!(m.balance(sc(2), 0, 2), 50);
    assert_eq!(transfer(&mut m, 2, 0, 3, 31), Ok(()));
    assert_eq!(m.balance(sc(1), 0, 1), 50);
    assert_eq!(m.balance(sc(2), 0, 2), 19);
    assert_eq!(m.balance(sc(3), 0, 3), 31);
    assert_eq!(m.destroy(Origin::signed(3), sc(3), 0), Ok(()));
    assert_eq!(m.total_supply(0), 69);
}

#[test]
fn transferring_amount_above_available_balance_should_work() {
    let mut m = new_test_ext();
    assert_eq!(issue(&mut m, 1, 100), Ok(()));
    assert_eq!(m.balance(sc(1), 0, 1), 100);
    assert_eq!(transfer(&mut m, 1, 0, 2, 50), Ok(()));
    assert_eq!(m.balance(sc(1), 0, 1), 50);
    assert_eq!(m.balance(sc(2), 0, 2), 50);
}

#[test]
fn transferring_amount_less_than_available_balance_should_not_work() {
    let mut m = new_test_ext();
    assert_eq!(issue(&mut m, 1, 100), Ok(()));
    assert_eq!(m.balance(sc(1), 0, 1), 100);
    assert_eq!(transfer(&mut m, 1, 0, 2, 50), Ok(()));
    assert_eq!(m.balance(sc(1), 0, 1), 50);
    assert_eq!(m.balance(sc(2), 0, 2), 50);
    assert_eq!(m.destroy(Origin::signed(1), sc(1), 0), Ok(()));
    assert_eq!(m.balance(sc(1), 0, 1), 0);
    let before = m.events().len();
    let r = transfer(&mut m, 1, 0, 1, 50);
    assert_noop(
        &mut m,
        r,
        "origin account balance must be greater than or equal to the transfer amount",
        before,
    );
}

#[test]
fn transferring_less_than_one_unit_should_not_work() {
    let mut m = new_test_ext();
    assert_eq!(issue(&mut m, 1, 100), Ok(()));
    assert_eq!(m.balance(sc(1), 0, 1), 100);
    let before = m.events().len();
    let r = transfer(&mut m, 1, 0, 2, 0);
    assert_noop(&mut m, r, "transfer amount should be non-zero", before);
    assert_eq!(m.balance(sc(1), 0, 1), 100);
}

#[test]
fn transferring_more_units_than_total_supply_should_not_work() {
    let mut m = new_test_ext();
    assert_eq!(issue(&mut m, 1, 100), Ok(()));
    assert_eq!(m.balance(sc(1), 0, 1), 100);
    let before = m.events().len();
    let r = transfer(&mut m, 1, 0, 2, 101);
    assert_noop(
        &mut m,
        r,
        "origin account balance must be greater than or equal to the transfer amount",
        before,
    );
    assert_eq!(m.balance(sc(1), 0, 1), 100);
}

#[test]
fn destroying_asset_balance_with_positive_balance_should_work() {
    let mut m = new_test_ext();
    assert_eq!(issue(&mut m, 1, 100), Ok(()));
    assert_eq!(m.balance(sc(1), 0, 1), 100);
    assert_eq!(m.destroy(Origin::signed(1), sc(1), 0), Ok(()));
}

#[test]
fn destroying_asset_balance_with_zero_balance_should_not_work() {
    let mut m = new_test_ext();
    assert_eq!(issue(&mut m, 1, 100), Ok(()));
    assert_eq!(m.balance(sc(2), 0, 2), 0);
    let before = m.events().len();
    let r = m.destroy(Origin::signed(2), sc(2), 0);
    assert_noop(&mut m, r, "origin balance should be non-zero", before);
}
