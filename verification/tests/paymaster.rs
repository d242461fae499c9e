use buddhaland::paymaster::{
    CallInfo, CallKind, Config, DepositAuthorization, Error, Event, Pallet, ProxyPermission,
};
use buddhaland::primitives::Origin;

const ALICE: [u8; 32] = [1u8; 32];
const BOB: [u8; 32] = [2u8; 32];
const CAROL: [u8; 32] = [3u8; 32];

fn config() -> Config {
    Config { pallet_id: *b"paymastr", max_batch_size: 50, minimum_deposit: 100, service_fee_rate: 100 }
}

fn pallet_account() -> [u8; 32] {
    let mut a = [0u8; 32];
    a[..4].copy_from_slice(b"modl");
    a[4..12].copy_from_slice(b"paymastr");
    a
}

fn transfer_call() -> CallInfo {
    CallInfo { kind: CallKind::Transfer, pallet: b"Balances".to_vec() }
}

fn governance_call() -> CallInfo {
    CallInfo { kind: CallKind::Governance, pallet: b"Democracy".to_vec() }
}

fn funded(amount: u128) -> Pallet {
    let mut p = Pallet::new(config());
    let d = p.deposit_prepaid(Origin::Signed(ALICE), amount).unwrap();
    assert_eq!(p.credit_deposit(&d, true), Ok(()));
    p
}

#[test]
fn pallet_account_derives_from_id() {
    let p = Pallet::new(config());
    assert_eq!(p.pallet_account(), pallet_account());
}

#[test]
fn deposit_credits_prepaid_balance() {
    let mut p = Pallet::new(config());
    assert!(matches!(p.deposit_prepaid(Origin::Signed(ALICE), 99), Err(Error::BelowMinimumDeposit)));
    assert!(matches!(p.deposit_prepaid(Origin::Root, 500), Err(Error::BadOrigin)));
    let d = p.deposit_prepaid(Origin::Signed(ALICE), 500).unwrap();
    assert_eq!(d.beneficiary(), ALICE);
    assert_eq!(d.transfer().from, ALICE);
    assert_eq!(d.transfer().to, pallet_account());
    assert_eq!(d.transfer().amount, 500);
    assert_eq!(p.credit_deposit(&d, false), Err(Error::Overflow));
    assert_eq!(p.prepaid_balance(&ALICE), 0);
    assert_eq!(p.credit_deposit(&d, true), Ok(()));
    assert_eq!(p.prepaid_balance(&ALICE), 500);
    assert!(matches!(p.events()[0], Event::PrepaidDeposited { user, amount: 500 } if user == ALICE));
}

#[test]
fn deposit_for_another_account() {
    let mut p = Pallet::new(config());
    let d = p.deposit_prepaid_for(Origin::Signed(BOB), ALICE, 300).unwrap();
    assert_eq!(d.transfer().from, BOB);
    assert_eq!(d.beneficiary(), ALICE);
    assert_eq!(p.credit_deposit(&d, true), Ok(()));
    assert_eq!(p.prepaid_balance(&ALICE), 300);
    assert_eq!(p.prepaid_balance(&BOB), 0);
}

#[test]
fn authorized_deposits() {
    let mut p = Pallet::new(config());
    assert!(matches!(
        p.authorized_deposit_prepaid(Origin::Signed(BOB), ALICE, 200),
        Err(Error::NotAuthorized)
    ));
    assert_eq!(p.set_deposit_authorization(Origin::Signed(ALICE), BOB, Some(1000), true), Ok(()));
    assert_eq!(
        p.deposit_authorization(&ALICE, &BOB),
        Some(DepositAuthorization { max_amount: Some(1000), enabled: true })
    );
    assert!(matches!(
        p.authorized_deposit_prepaid(Origin::Signed(BOB), ALICE, 1001),
        Err(Error::ExceedsFeeLimit)
    ));
    assert!(matches!(
        p.authorized_deposit_prepaid(Origin::Signed(BOB), ALICE, 50),
        Err(Error::BelowMinimumDeposit)
    ));
    let d = p.authorized_deposit_prepaid(Origin::Signed(BOB), ALICE, 1000).unwrap();
    assert_eq!(d.beneficiary(), ALICE);
    assert_eq!(d.transfer().from, BOB);
    assert_eq!(p.set_deposit_authorization(Origin::Signed(ALICE), BOB, None, false), Ok(()));
    assert!(matches!(
        p.authorized_deposit_prepaid(Origin::Signed(BOB), ALICE, 1000),
        Err(Error::NotAuthorized)
    ));
    assert_eq!(p.set_deposit_authorization(Origin::Signed(ALICE), BOB, None, true), Ok(()));
    assert!(p.authorized_deposit_prepaid(Origin::Signed(BOB), ALICE, u128::MAX).is_ok());
}

#[test]
fn withdraw_returns_funds() {
    let mut p = funded(500);
    assert!(matches!(p.withdraw_prepaid(Origin::Signed(ALICE), 501), Err(Error::InsufficientBalance)));
    let w = p.withdraw_prepaid(Origin::Signed(ALICE), 200).unwrap();
    let t = w.transfer();
    assert_eq!(t.from, pallet_account());
    assert_eq!(t.to, ALICE);
    assert_eq!(t.amount, 200);
    assert_eq!(p.prepaid_balance(&ALICE), 500);
    assert_eq!(p.finish_withdraw(&w, true), Ok(()));
    assert_eq!(p.prepaid_balance(&ALICE), 300);
    assert!(matches!(p.events().last(), Some(Event::PrepaidWithdrawn { user, amount: 200 }) if *user == ALICE));
}

#[test]
fn proxies_are_added_and_removed() {
    let mut p = Pallet::new(config());
    assert_eq!(p.add_proxy(Origin::Signed(ALICE), BOB, ProxyPermission::Custom(vec![7]), 50), Ok(()));
    assert_eq!(p.proxy_enabled(&ALICE, &BOB), Some(true));
    assert_eq!(
        p.add_proxy(Origin::Signed(ALICE), BOB, ProxyPermission::All, 50),
        Err(Error::ProxyAlreadyExists)
    );
    match &p.events()[0] {
        Event::ProxyAdded { user, proxy, permission: ProxyPermission::Custom(b) } => {
            assert_eq!(*user, ALICE);
            assert_eq!(*proxy, BOB);
            assert_eq!(b, &vec![7u8]);
        }
        _ => panic!("expected a proxy event"),
    }
    assert_eq!(p.remove_proxy(Origin::Signed(ALICE), BOB), Ok(()));
    assert_eq!(p.proxy_enabled(&ALICE, &BOB), None);
    assert_eq!(p.remove_proxy(Origin::Signed(ALICE), BOB), Err(Error::ProxyNotFound));
}

#[test]
fn proxy_execute_charges_fee_and_service_fee() {
    let mut p = funded(20_000);
    assert_eq!(p.add_proxy(Origin::Signed(ALICE), BOB, ProxyPermission::All, 10_000), Ok(()));
    let c = p.proxy_execute(Origin::Signed(BOB), ALICE, transfer_call(), 10_000).unwrap();
    assert_eq!(c.service_fee(), 100);
    assert_eq!(c.total_fee(), 10_100);
    assert_eq!(p.prepaid_balance(&ALICE), 9_900);
    assert_eq!(p.total_service_fees(), 100);
    assert_eq!(p.finish_proxy_execute(c, Ok(()), 42), Ok(()));
    assert_eq!(p.prepaid_balance(&ALICE), 9_900);
    let recs = p.fee_records(&ALICE);
    assert_eq!(recs.len(), 1);
    assert_eq!(recs[0].amount, 10_000);
    assert_eq!(recs[0].block_number, 42);
    assert_eq!(recs[0].tx_hash, None);
    assert!(matches!(
        p.events().last(),
        Some(Event::ProxyExecuted { user, proxy, fee: 10_000 }) if *user == ALICE && *proxy == BOB
    ));
}

#[test]
fn failed_proxy_call_is_undone_with_its_error() {
    let mut p = funded(20_000);
    assert_eq!(p.add_proxy(Origin::Signed(ALICE), BOB, ProxyPermission::Transfer, 10_000), Ok(()));
    let c = p.proxy_execute(Origin::Signed(BOB), ALICE, transfer_call(), 10_000).unwrap();
    let n = p.events().len();
    assert_eq!(p.finish_proxy_execute(c, Err(17), 1), Err(Error::CallFailed(17)));
    assert_eq!(p.prepaid_balance(&ALICE), 20_000);
    assert_eq!(p.total_service_fees(), 0);
    assert!(p.fee_records(&ALICE).is_empty());
    assert_eq!(p.events().len(), n);
}

#[test]
fn permissions_limit_proxied_calls() {
    let mut p = funded(20_000);
    assert_eq!(p.add_proxy(Origin::Signed(ALICE), BOB, ProxyPermission::Transfer, 10_000), Ok(()));
    assert!(matches!(
        p.proxy_execute(Origin::Signed(BOB), ALICE, governance_call(), 100),
        Err(Error::InsufficientPermission)
    ));
    assert_eq!(p.prepaid_balance(&ALICE), 20_000);
    let ok = p.proxy_execute(Origin::Signed(BOB), ALICE, transfer_call(), 100).unwrap();
    assert_eq!(p.finish_proxy_execute(ok, Ok(()), 1), Ok(()));
    assert_eq!(p.add_proxy(Origin::Signed(ALICE), CAROL, ProxyPermission::Custom(b"Democracy".to_vec()), 10_000), Ok(()));
    assert!(p.proxy_execute(Origin::Signed(CAROL), ALICE, governance_call(), 100).is_ok());
    let before = p.prepaid_balance(&ALICE);
    assert!(matches!(
        p.proxy_execute(Origin::Signed(CAROL), ALICE, transfer_call(), 100),
        Err(Error::InsufficientPermission)
    ));
    assert!(matches!(
        p.batch_proxy_execute(Origin::Signed(BOB), ALICE, &vec![transfer_call(), governance_call()], 100),
        Err(Error::InsufficientPermission)
    ));
    assert_eq!(p.prepaid_balance(&ALICE), before);
}

#[test]
fn proxy_execute_refusals() {
    let mut p = funded(1_000);
    assert!(matches!(p.proxy_execute(Origin::Signed(BOB), ALICE, transfer_call(), 10), Err(Error::ProxyNotFound)));
    assert_eq!(p.add_proxy(Origin::Signed(ALICE), BOB, ProxyPermission::Governance, 5_000), Ok(()));
    assert!(matches!(p.proxy_execute(Origin::Signed(BOB), ALICE, governance_call(), 5_001), Err(Error::ExceedsFeeLimit)));
    assert!(matches!(p.proxy_execute(Origin::Signed(BOB), ALICE, governance_call(), 1_000), Err(Error::InsufficientBalance)));
    assert!(matches!(p.proxy_execute(Origin::Unsigned, ALICE, governance_call(), 1), Err(Error::BadOrigin)));
    assert_eq!(p.prepaid_balance(&ALICE), 1_000);
    assert_eq!(p.total_service_fees(), 0);
}

#[test]
fn batch_is_charged_when_every_call_succeeds() {
    let mut p = funded(20_000);
    assert_eq!(p.add_proxy(Origin::Signed(ALICE), BOB, ProxyPermission::All, 10_000), Ok(()));
    let many: Vec<CallInfo> = (0..51).map(|_| transfer_call()).collect();
    assert!(matches!(
        p.batch_proxy_execute(Origin::Signed(BOB), ALICE, &many, 100),
        Err(Error::TooManyBatchCalls)
    ));
    let calls = vec![transfer_call(), governance_call(), transfer_call()];
    let c = p.batch_proxy_execute(Origin::Signed(BOB), ALICE, &calls, 1_000).unwrap();
    assert_eq!(c.total_fee(), 1_010);
    assert_eq!(p.prepaid_balance(&ALICE), 18_990);
    let out = p.finish_batch_proxy_execute(c, &vec![Ok(()), Ok(()), Ok(())], 9).unwrap();
    assert_eq!(out.count, 3);
    assert!(!out.pays_fee);
    assert_eq!(p.prepaid_balance(&ALICE), 18_990);
    assert!(matches!(
        p.events().last(),
        Some(Event::BatchExecuted { count: 3, total_fee: 1_000, .. })
    ));
    assert_eq!(p.fee_records(&ALICE)[0].amount, 1_000);
}

#[test]
fn batch_with_a_failed_call_is_undone() {
    let mut p = funded(20_000);
    assert_eq!(p.add_proxy(Origin::Signed(ALICE), BOB, ProxyPermission::All, 10_000), Ok(()));
    let c = p.batch_proxy_execute(Origin::Signed(BOB), ALICE, &vec![transfer_call(), transfer_call()], 1_000).unwrap();
    let n = p.events().len();
    assert_eq!(p.finish_batch_proxy_execute(c, &vec![Ok(()), Err(5), Err(6)], 9), Err(Error::CallFailed(5)));
    assert_eq!(p.prepaid_balance(&ALICE), 20_000);
    assert_eq!(p.total_service_fees(), 0);
    assert!(p.fee_records(&ALICE).is_empty());
    assert_eq!(p.events().len(), n);
}

#[test]
fn fee_records_keep_at_most_one_hundred() {
    let mut p = funded(1_000_000);
    assert_eq!(p.add_proxy(Origin::Signed(ALICE), CAROL, ProxyPermission::All, 10), Ok(()));
    for i in 0..101u32 {
        let c = p.proxy_execute(Origin::Signed(CAROL), ALICE, transfer_call(), 1).unwrap();
        assert_eq!(p.finish_proxy_execute(c, Ok(()), i), Ok(()));
    }
    let recs = p.fee_records(&ALICE);
    assert_eq!(recs.len(), 100);
    assert_eq!(recs[99].block_number, 99);
}

#[test]
fn system_pool_grows() {
    let mut p = Pallet::new(config());
    assert_eq!(p.get_system_pool_balance(), 0);
    assert_eq!(p.increase_system_pool(100), Ok(()));
    assert_eq!(p.increase_system_pool(50), Ok(()));
    assert_eq!(p.get_system_pool_balance(), 150);
    assert!(matches!(p.events()[1], Event::SystemPoolIncreased { amount: 50, new_total: 150 }));
    assert_eq!(p.increase_system_pool(u128::MAX), Ok(()));
    assert_eq!(p.get_system_pool_balance(), u128::MAX);
}

#[test]
fn failed_withdraw_transfer_keeps_balance() {
    let mut p = funded(500);
    let w = p.withdraw_prepaid(Origin::Signed(ALICE), 200).unwrap();
    assert_eq!(p.finish_withdraw(&w, false), Err(Error::Overflow));
    assert_eq!(p.prepaid_balance(&ALICE), 500);
    assert_eq!(p.events().len(), 1);
}
