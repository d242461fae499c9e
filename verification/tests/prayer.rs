use buddhaland::karma::{self, MeritAction};
use buddhaland::prayer::{Config, Error, Event, Pallet};
use buddhaland::primitives::Origin;

const ALICE: [u8; 32] = [1u8; 32];

fn karma_pallet() -> karma::Pallet {
    karma::Pallet::new(karma::Config {
        base_checkin_reward: 1000,
        max_consecutive_multiplier: 7,
        min_blocks_between_checkins: 14400,
        merit_level_thresholds: vec![0, 1000, 5000, 20000, 100000],
    })
}

#[test]
fn prayer_spends_default_cost() {
    let mut k = karma_pallet();
    assert_eq!(k.do_reward_karma(&ALICE, 500, karma::RewardReason::ManualAdjust), Ok(()));
    let mut p = Pallet::new(Config { default_prayer_cost: 100 });
    assert_eq!(p.pray(&mut k, Origin::Signed(ALICE), vec![0xab, 0xcd], None, 3), Ok(()));
    assert_eq!(k.karma_balances(&ALICE), 400);
    assert_eq!(k.total_merit_value(&ALICE), 100);
    let rec = k.get_recent_merit_records(&ALICE, 1);
    assert_eq!(rec[0].action, MeritAction::Prayer);
    assert_eq!(rec[0].amount, 100);
    assert_eq!(rec[0].at_block, 3);
    assert!(rec[0].description.is_empty());
    assert_eq!(p.deposited().len(), 1);
    match &p.deposited()[0] {
        Event::Prayed(w, 100, c) => {
            assert_eq!(*w, ALICE);
            assert_eq!(c, &vec![0xab, 0xcd]);
        }
        _ => panic!("expected a prayer event"),
    }
}

#[test]
fn prayer_spends_given_amount() {
    let mut k = karma_pallet();
    assert_eq!(k.do_reward_karma(&ALICE, 500, karma::RewardReason::ManualAdjust), Ok(()));
    let mut p = Pallet::new(Config { default_prayer_cost: 100 });
    assert_eq!(p.pray(&mut k, Origin::Signed(ALICE), vec![1], Some(250), 3), Ok(()));
    assert_eq!(k.karma_balances(&ALICE), 250);
    assert!(matches!(p.deposited()[0], Event::Prayed(_, 250, _)));
}

#[test]
fn prayer_refusals() {
    let mut k = karma_pallet();
    assert_eq!(k.do_reward_karma(&ALICE, 50, karma::RewardReason::ManualAdjust), Ok(()));
    let mut p = Pallet::new(Config { default_prayer_cost: 100 });
    assert_eq!(p.pray(&mut k, Origin::Root, vec![1], None, 1), Err(Error::BadOrigin));
    assert_eq!(p.pray(&mut k, Origin::Signed(ALICE), vec![], None, 1), Err(Error::EmptyPrayer));
    assert_eq!(p.pray(&mut k, Origin::Signed(ALICE), vec![1], None, 1), Err(Error::ConsumeFailed));
    assert_eq!(p.pray(&mut k, Origin::Signed(ALICE), vec![1], Some(0), 1), Err(Error::ConsumeFailed));
    assert_eq!(k.karma_balances(&ALICE), 50);
    assert!(p.deposited().is_empty());
}
