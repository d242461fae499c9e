use buddhaland::exchange::{Config, Error, Event, Pallet};
use buddhaland::karma;
use buddhaland::paymaster;
use buddhaland::primitives::Origin;

const ALICE: [u8; 32] = [1u8; 32];
const PAYMASTER: [u8; 32] = [2u8; 32];
const BLACKHOLE: [u8; 32] = [0u8; 32];
const TREASURY: [u8; 32] = [3u8; 32];
const MINING: [u8; 32] = [4u8; 32];

fn config() -> Config {
    Config {
        paymaster_account: PAYMASTER,
        blackhole_account: BLACKHOLE,
        treasury_account: TREASURY,
        exchange_rate: 1000,
        burn_bps: 2000,
        treasury_bps: 7000,
        paymaster_bps: 1000,
        bps_denominator: 10000,
        share_mining_bps: 0,
        share_mining_account: MINING,
    }
}

fn paymaster_pallet() -> paymaster::Pallet {
    paymaster::Pallet::new(paymaster::Config {
        pallet_id: *b"paymastr",
        max_batch_size: 50,
        minimum_deposit: 1,
        service_fee_rate: 100,
    })
}

fn karma_pallet() -> karma::Pallet {
    karma::Pallet::new(karma::Config {
        base_checkin_reward: 1000,
        max_consecutive_multiplier: 7,
        min_blocks_between_checkins: 14400,
        merit_level_thresholds: vec![0, 1000],
    })
}

#[test]
fn exchange_splits_by_basis_points() {
    let p = Pallet::new(config());
    let plan = p.exchange(Origin::Signed(ALICE), 1000).unwrap();
    assert_eq!(plan.who(), ALICE);
    assert_eq!(plan.burn(), 200);
    assert_eq!(plan.treasury_total(), 700);
    assert_eq!(plan.paymaster(), 100);
    assert_eq!(plan.share_mining(), 0);
    assert_eq!(plan.karma_out(), 1_000_000);
    assert_eq!(plan.transfers()[0].to, BLACKHOLE);
    assert_eq!(plan.transfers()[0].amount, 200);
    assert_eq!(plan.transfers()[1].to, TREASURY);
    assert_eq!(plan.transfers()[1].amount, 700);
    assert_eq!(plan.transfers()[2].to, PAYMASTER);
    assert_eq!(plan.transfers()[2].amount, 100);
    assert_eq!(plan.transfers()[3].to, MINING);
    assert_eq!(plan.transfers()[3].amount, 0);
    assert!(plan.transfers().iter().all(|t| t.from == ALICE));
}

#[test]
fn exchange_rounding_remainder_goes_to_treasury() {
    let p = Pallet::new(config());
    let plan = p.exchange(Origin::Signed(ALICE), 7).unwrap();
    assert_eq!(plan.burn(), 1);
    assert_eq!(plan.paymaster(), 0);
    assert_eq!(plan.treasury_total(), 6);
    assert_eq!(plan.burn() + plan.treasury_total() + plan.paymaster() + plan.share_mining(), 7);
}

#[test]
fn exchange_with_share_mining() {
    let mut c = config();
    c.treasury_bps = 6000;
    c.share_mining_bps = 1000;
    let p = Pallet::new(c);
    let plan = p.exchange(Origin::Signed(ALICE), 1000).unwrap();
    assert_eq!((plan.burn(), plan.treasury_total(), plan.paymaster(), plan.share_mining()), (200, 600, 100, 100));
}

#[test]
fn exchange_refusals() {
    let p = Pallet::new(config());
    assert!(matches!(p.exchange(Origin::Unsigned, 10), Err(Error::BadOrigin)));
    assert!(matches!(p.exchange(Origin::Signed(ALICE), 0), Err(Error::ZeroAmount)));
    let mut c = config();
    c.burn_bps = 2001;
    let bad = Pallet::new(c);
    assert!(matches!(bad.exchange(Origin::Signed(ALICE), 10), Err(Error::InvalidBps)));
}

#[test]
fn exchange_karma_saturates() {
    let p = Pallet::new(config());
    let plan = p.exchange(Origin::Signed(ALICE), u128::MAX).unwrap();
    assert_eq!(plan.karma_out(), u128::MAX);
}

#[test]
fn complete_exchange_grants_karma() {
    let p0 = Pallet::new(config());
    let plan = p0.exchange(Origin::Signed(ALICE), 1000).unwrap();
    let mut p = Pallet::new(config());
    let mut k = karma_pallet();
    let mut pm = paymaster_pallet();
    assert_eq!(p.complete_exchange(&mut k, &mut pm, &plan, true), Ok(()));
    assert_eq!(k.karma_balances(&ALICE), 1_000_000);
    assert_eq!(pm.get_system_pool_balance(), 100);
    assert!(matches!(pm.events()[0], paymaster::Event::SystemPoolIncreased { amount: 100, new_total: 100 }));
    assert!(matches!(
        p.deposited()[0],
        Event::Exchanged(w, 1000, 1_000_000, 200, 700, 100, 0) if w == ALICE
    ));
}

#[test]
fn complete_exchange_failures() {
    let p0 = Pallet::new(config());
    let plan = p0.exchange(Origin::Signed(ALICE), 1000).unwrap();
    let mut p = Pallet::new(config());
    let mut k = karma_pallet();
    let mut pm = paymaster_pallet();
    assert_eq!(p.complete_exchange(&mut k, &mut pm, &plan, false), Err(Error::TransferFailed));
    let mut c = config();
    c.exchange_rate = 0;
    let free = Pallet::new(c);
    let no_karma = free.exchange(Origin::Signed(ALICE), 1000).unwrap();
    assert_eq!(no_karma.karma_out(), 0);
    assert_eq!(p.complete_exchange(&mut k, &mut pm, &no_karma, true), Err(Error::KarmaMintFailed));
    assert_eq!(k.karma_balances(&ALICE), 0);
    assert_eq!(pm.get_system_pool_balance(), 0);
    assert!(p.deposited().is_empty());
}

#[test]
fn zero_amount_is_refused_whatever_the_basis_points() {
    let mut c = config();
    c.burn_bps = 0;
    c.treasury_bps = 0;
    c.paymaster_bps = 0;
    c.bps_denominator = 0;
    let p = Pallet::new(c);
    assert!(matches!(p.exchange(Origin::Signed(ALICE), 0), Err(Error::ZeroAmount)));
}

#[test]
fn exchange_constants_are_readable() {
    let p = Pallet::new(config());
    let c = p.constants();
    assert_eq!(c.bps_denominator, 10000);
    assert_eq!(c.treasury_account, TREASURY);
}

#[test]
fn exchange_of_the_largest_amount_still_conserves_tokens() {
    let p = Pallet::new(config());
    let plan = p.exchange(Origin::Signed(ALICE), u128::MAX).unwrap();
    assert_eq!(plan.burn(), u128::MAX / 10000);
    assert_eq!(plan.paymaster(), u128::MAX / 10000);
    let total = plan.burn() + plan.treasury_total() + plan.paymaster() + plan.share_mining();
    assert_eq!(total, u128::MAX);
}
