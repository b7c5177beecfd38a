use yee_assets::assets::Module;
use yee_assets::encoding::{shard_code_of, SHARD_CODE_SIZE};
use yee_assets::types::{DispatchError, Event, Origin, RelayedTransfer, MAX_NAME_SIZE};

fn sc(who: u64) -> Vec<u8> {
    shard_code_of(who)
}

#[test]
fn shard_code_is_tail_of_little_endian_encoding() {
    assert_eq!(SHARD_CODE_SIZE, 2);
    assert_eq!(shard_code_of(0x0102_0304_0506_0708), vec![0x02, 0x01]);
    assert_eq!(shard_code_of(1), vec![0, 0]);
    assert_eq!(shard_code_of(u64::MAX), vec![0xff, 0xff]);
}

#[test]
fn issue_records_details_and_event() {
    let mut m = Module::new(7);
    let who: u64 = 0xabcd_0000_0000_0001;
    assert_eq!(m.next_asset_id(), 7);
    assert_eq!(m.issue(Origin::signed(who), b"GOLD".to_vec(), 500, 3), Ok(()));
    assert_eq!(m.next_asset_id(), 8);
    assert_eq!(m.total_supply(7), 500);
    assert_eq!(m.name(7), b"GOLD".to_vec());
    assert_eq!(m.decimals(7), 3);
    assert_eq!(m.issuer(7), who);
    assert_eq!(m.balance(vec![0xcd, 0xab], 7, who), 500);
    assert_eq!(
        m.events(),
        &vec![Event::Issued(vec![0xcd, 0xab], 7, b"GOLD".to_vec(), who, 500, 3)]
    );
    assert_eq!(m.issue(Origin::signed(who), b"SILVER".to_vec(), 9, 0), Ok(()));
    assert_eq!(m.next_asset_id(), 9);
    assert_eq!(m.name(7), b"GOLD".to_vec());
    assert_eq!(m.name(8), b"SILVER".to_vec());
}

#[test]
fn unissued_assets_read_as_defaults() {
    let m = Module::new(0);
    assert_eq!(m.total_supply(3), 0);
    assert_eq!(m.name(3), Vec::<u8>::new());
    assert_eq!(m.decimals(3), 0);
    assert_eq!(m.issuer(3), 0);
    assert_eq!(m.balance(sc(1), 3, 1), 0);
}

#[test]
fn issue_with_long_name_is_refused() {
    let mut m = Module::new(0);
    let long = vec![b'a'; MAX_NAME_SIZE + 1];
    let r = m.issue(Origin::signed(1), long, 100, 0);
    assert_eq!(r, Err(DispatchError::NameTooLong));
    assert_eq!(r.unwrap_err().message(), "Asset's name's length overflow.");
    assert_eq!(m.next_asset_id(), 0);
    assert_eq!(m.events().len(), 0);
    let longest = vec![b'a'; MAX_NAME_SIZE];
    assert_eq!(m.issue(Origin::signed(1), longest, 100, 0), Ok(()));
    assert_eq!(m.next_asset_id(), 1);
}

#[test]
fn unsigned_origins_are_refused() {
    let mut m = Module::new(0);
    for origin in [Origin::Root, Origin::Unsigned] {
        let r = m.issue(origin, b"X".to_vec(), 1, 0);
        assert_eq!(r, Err(DispatchError::BadOrigin));
        assert_eq!(r.unwrap_err().message(), "Bad origin");
        assert_eq!(m.transfer(origin, sc(1), 0, 2, 1, 0, 0), Err(DispatchError::BadOrigin));
        assert_eq!(m.destroy(origin, sc(1), 0), Err(DispatchError::BadOrigin));
    }
    assert_eq!(m.next_asset_id(), 0);
    assert_eq!(m.events().len(), 0);
}

#[test]
fn cross_shard_transfer_only_debits_sender() {
    let mut m = Module::new(0);
    assert_eq!(m.issue(Origin::signed(1), b"T".to_vec(), 100, 0), Ok(()));
    assert_eq!(m.transfer(Origin::signed(1), sc(1), 0, 2, 40, 0, 1), Ok(()));
    assert_eq!(m.balance(sc(1), 0, 1), 60);
    assert_eq!(m.balance(sc(1), 0, 2), 0);
    assert_eq!(m.total_supply(0), 100);
    assert_eq!(m.events()[1], Event::Transferred(sc(1), 0, 1, 2, 40));
}

#[test]
fn transfer_to_self_keeps_balance() {
    let mut m = Module::new(0);
    assert_eq!(m.issue(Origin::signed(1), b"T".to_vec(), 100, 0), Ok(()));
    assert_eq!(m.transfer(Origin::signed(1), sc(1), 0, 1, 100, 5, 5), Ok(()));
    assert_eq!(m.balance(sc(1), 0, 1), 100);
}

#[test]
fn transfer_round_trip_restores_balances() {
    let mut m = Module::new(0);
    assert_eq!(m.issue(Origin::signed(1), b"T".to_vec(), 100, 0), Ok(()));
    assert_eq!(m.transfer(Origin::signed(1), sc(1), 0, 2, 30, 0, 0), Ok(()));
    assert_eq!(m.transfer(Origin::signed(2), sc(1), 0, 1, 30, 0, 0), Ok(()));
    assert_eq!(m.balance(sc(1), 0, 1), 100);
    assert_eq!(m.balance(sc(1), 0, 2), 0);
    assert_eq!(m.total_supply(0), 100);
}

#[test]
fn transfers_under_another_shard_code_need_their_own_balance() {
    let mut m = Module::new(0);
    assert_eq!(m.issue(Origin::signed(1), b"T".to_vec(), 100, 0), Ok(()));
    let other = vec![9, 9];
    assert_eq!(
        m.transfer(Origin::signed(1), other, 0, 2, 1, 0, 0),
        Err(DispatchError::InsufficientBalance)
    );
}

#[test]
fn destroy_takes_holding_off_supply() {
    let mut m = Module::new(0);
    assert_eq!(m.issue(Origin::signed(1), b"T".to_vec(), 100, 0), Ok(()));
    assert_eq!(m.transfer(Origin::signed(1), sc(1), 0, 2, 25, 0, 0), Ok(()));
    assert_eq!(m.destroy(Origin::signed(2), sc(2), 0), Ok(()));
    assert_eq!(m.balance(sc(2), 0, 2), 0);
    assert_eq!(m.balance(sc(1), 0, 1), 75);
    assert_eq!(m.total_supply(0), 75);
    assert_eq!(m.events()[2], Event::Destroyed(sc(2), 0, 2, 25));
    let r = m.destroy(Origin::signed(2), sc(2), 0);
    assert_eq!(r, Err(DispatchError::ZeroBalance));
}

#[test]
fn relayed_transfer_credits_receiver() {
    let mut m = Module::new(0);
    let tx = RelayedTransfer { shard_code: vec![1, 2], asset_id: Some(4), from: 8, to: 9, amount: 70 };
    assert_eq!(m.relay_transfer(Some(tx)), Ok(()));
    assert_eq!(m.balance(vec![1, 2], 4, 9), 70);
    let tx = RelayedTransfer { shard_code: vec![1, 2], asset_id: Some(4), from: 8, to: 9, amount: 5 };
    assert_eq!(m.relay_transfer(Some(tx)), Ok(()));
    assert_eq!(m.balance(vec![1, 2], 4, 9), 75);
    assert_eq!(m.events()[1], Event::Transferred(vec![1, 2], 4, 8, 9, 5));
    assert_eq!(m.total_supply(4), 0);
}

#[test]
fn undecodable_relayed_transfer_is_refused() {
    let mut m = Module::new(0);
    let r = m.relay_transfer(None);
    assert_eq!(r, Err(DispatchError::InvalidTransfer));
    assert_eq!(r.unwrap_err().message(), "transfer is invalid.");
    assert_eq!(m.events().len(), 0);
}

#[test]
fn error_messages() {
    assert_eq!(DispatchError::ZeroAmount.message(), "transfer amount should be non-zero");
    assert_eq!(
        DispatchError::InsufficientBalance.message(),
        "origin account balance must be greater than or equal to the transfer amount"
    );
    assert_eq!(DispatchError::ZeroBalance.message(), "origin balance should be non-zero");
}
