use buddhaland::karma::{
    AlwaysTrueVerifier, Config, Error, Event, GenesisConfig, KarmaProvider, MeritAction, Pallet,
    RewardReason,
};
use buddhaland::primitives::Origin;

const ALICE: [u8; 32] = [1u8; 32];
const BOB: [u8; 32] = [2u8; 32];

fn config() -> Config {
    Config {
        base_checkin_reward: 1000,
        max_consecutive_multiplier: 7,
        min_blocks_between_checkins: 14400,
        merit_level_thresholds: vec![0, 1000, 5000, 20000, 100000],
    }
}

#[test]
fn checkin_grants_base_reward() {
    let mut p = Pallet::new(config());
    assert_eq!(p.daily_checkin(Origin::Signed(ALICE), 10), Ok(()));
    assert_eq!(p.karma_balances(&ALICE), 1000);
    assert_eq!(p.last_checkin_block(&ALICE), Some(10));
    assert_eq!(p.events().len(), 2);
    assert!(matches!(p.events()[0], Event::KarmaRewarded(w, 1000, RewardReason::DailyCheckin) if w == ALICE));
    assert!(matches!(p.events()[1], Event::DailyCheckin(w, 1000, 1) if w == ALICE));
}

#[test]
fn checkin_too_soon_is_refused() {
    let mut p = Pallet::new(config());
    assert_eq!(p.daily_checkin(Origin::Signed(ALICE), 100), Ok(()));
    assert_eq!(p.daily_checkin(Origin::Signed(ALICE), 14499), Err(Error::AlreadyCheckedIn));
    assert_eq!(p.karma_balances(&ALICE), 1000);
    assert_eq!(p.daily_checkin(Origin::Signed(ALICE), 14500), Ok(()));
    assert_eq!(p.karma_balances(&ALICE), 3000);
    assert_eq!(p.consecutive_days(&ALICE), 2);
}

#[test]
fn streak_multiplies_checkin_reward() {
    let mut p = Pallet::new(config());
    let mut block = 1u32;
    let mut expected = 0u128;
    for day in 1..=9u32 {
        assert_eq!(p.daily_checkin(Origin::Signed(ALICE), block), Ok(()));
        expected += 1000 * u128::from(day.min(7));
        assert_eq!(p.karma_balances(&ALICE), expected);
        assert_eq!(p.consecutive_days(&ALICE), day);
        assert!(matches!(p.events().last(), Some(Event::DailyCheckin(_, r, d)) if *r == 1000 * u128::from(day.min(7)) && *d == day));
        block += 14400;
    }
}

#[test]
fn missed_day_resets_streak() {
    let mut p = Pallet::new(config());
    assert_eq!(p.daily_checkin(Origin::Signed(ALICE), 1), Ok(()));
    assert_eq!(p.daily_checkin(Origin::Signed(ALICE), 14401), Ok(()));
    assert_eq!(p.consecutive_days(&ALICE), 2);
    assert_eq!(p.daily_checkin(Origin::Signed(ALICE), 14401 + 28800), Ok(()));
    assert_eq!(p.consecutive_days(&ALICE), 1);
    assert_eq!(p.karma_balances(&ALICE), 1000 + 2000 + 1000);
}

#[test]
fn checkin_going_back_in_time_is_refused() {
    let mut p = Pallet::new(config());
    assert_eq!(p.daily_checkin(Origin::Signed(ALICE), 20000), Ok(()));
    assert_eq!(p.daily_checkin(Origin::Signed(ALICE), 5), Err(Error::AlreadyCheckedIn));
}

#[test]
fn checkin_needs_a_signature() {
    let mut p = Pallet::new(config());
    assert_eq!(p.daily_checkin(Origin::Root, 1), Err(Error::BadOrigin));
    assert_eq!(p.daily_checkin(Origin::Unsigned, 1), Err(Error::BadOrigin));
    assert_eq!(p.events().len(), 0);
}

#[test]
fn checkin_with_zero_multiplier_is_refused() {
    let mut c = config();
    c.max_consecutive_multiplier = 0;
    let mut p = Pallet::new(c);
    assert_eq!(p.daily_checkin(Origin::Signed(ALICE), 1), Err(Error::ZeroAmount));
    assert_eq!(p.karma_balances(&ALICE), 0);
    assert_eq!(p.last_checkin_block(&ALICE), None);
}

#[test]
fn task_is_completed_once() {
    let mut p = Pallet::new(config());
    let r = p.complete_meditation_task::<AlwaysTrueVerifier>(Origin::Signed(ALICE), 7, vec![1, 2], 30);
    assert_eq!(r, Ok(()));
    assert_eq!(p.karma_balances(&ALICE), 1000);
    let t = p.completed_task(&ALICE, 7).unwrap();
    assert_eq!(t.task_id, 7);
    assert_eq!(t.at_block, 30);
    let again = p.complete_meditation_task::<AlwaysTrueVerifier>(Origin::Signed(ALICE), 7, vec![], 31);
    assert_eq!(again, Err(Error::TaskAlreadyCompleted));
    assert_eq!(p.karma_balances(&ALICE), 1000);
    assert!(matches!(p.events()[1], Event::TaskCompleted(w, 7, 1000) if w == ALICE));
}

#[test]
fn task_with_zero_reward_is_refused() {
    let mut c = config();
    c.base_checkin_reward = 0;
    let mut p = Pallet::new(c);
    let r = p.complete_meditation_task::<AlwaysTrueVerifier>(Origin::Signed(ALICE), 1, vec![], 1);
    assert_eq!(r, Err(Error::ZeroAmount));
    assert_eq!(p.completed_task(&ALICE, 1), None);
}

#[test]
fn merit_levels_follow_thresholds() {
    let p = Pallet::new(config());
    assert_eq!(p.calculate_merit_level_internal(0), 1);
    assert_eq!(p.calculate_merit_level_internal(999), 1);
    assert_eq!(p.calculate_merit_level_internal(1000), 2);
    assert_eq!(p.calculate_merit_level_internal(4999), 2);
    assert_eq!(p.calculate_merit_level_internal(5000), 3);
    assert_eq!(p.calculate_merit_level_internal(20000), 4);
    assert_eq!(p.calculate_merit_level_internal(100000), 5);
    assert_eq!(p.calculate_merit_level_internal(u128::MAX), 5);
}

#[test]
fn merit_level_stops_at_first_unmet_threshold() {
    let mut c = config();
    c.merit_level_thresholds = vec![10, 5000, 20];
    let p = Pallet::new(c);
    assert_eq!(p.calculate_merit_level_internal(100), 1);
    assert_eq!(p.calculate_merit_level_internal(9), 0);
}

#[test]
fn merit_level_saturates_at_255() {
    let mut c = config();
    c.merit_level_thresholds = vec![0; 300];
    let p = Pallet::new(c);
    assert_eq!(p.calculate_merit_level_internal(0), 255);
}

#[test]
fn merit_action_moves_karma_into_merit() {
    let mut p = Pallet::new(config());
    assert_eq!(p.daily_checkin(Origin::Signed(ALICE), 1), Ok(()));
    let r = p.perform_merit_action(Origin::Signed(ALICE), MeritAction::Incense, 300, b"for all".to_vec(), 2);
    assert_eq!(r, Ok(()));
    assert_eq!(p.karma_balances(&ALICE), 700);
    assert_eq!(p.total_merit_value(&ALICE), 300);
    assert_eq!(p.user_merit_level(&ALICE), 1);
    assert_eq!(p.next_merit_record_id(&ALICE), 1);
    assert_eq!(p.karma_balances(&ALICE) + p.total_merit_value(&ALICE), 1000);
    assert_eq!(p.karma_balances(&BOB), 0);
    let ev = p.events();
    assert_eq!(ev.len(), 6);
    assert!(matches!(ev[2], Event::KarmaConsumed(w, 300, MeritAction::Incense) if w == ALICE));
    match &ev[3] {
        Event::MeritActionPerformed(w, MeritAction::Incense, d) => {
            assert_eq!(*w, ALICE);
            assert_eq!(d, &b"for all".to_vec());
        }
        _ => panic!("expected the merit action event"),
    }
    assert!(matches!(ev[4], Event::MeritValueUpdated(w, 300, 1) if w == ALICE));
    assert!(matches!(ev[5], Event::LevelUp(w, 1, 300) if w == ALICE));
}

#[test]
fn level_up_only_when_level_rises() {
    let mut p = Pallet::new(config());
    assert_eq!(p.daily_checkin(Origin::Signed(ALICE), 1), Ok(()));
    assert_eq!(p.perform_merit_action(Origin::Signed(ALICE), MeritAction::Flower, 100, vec![], 2), Ok(()));
    let n = p.events().len();
    assert_eq!(p.perform_merit_action(Origin::Signed(ALICE), MeritAction::Flower, 100, vec![], 3), Ok(()));
    assert_eq!(p.events().len(), n + 3);
    assert!(matches!(p.events()[n + 2], Event::MeritValueUpdated(_, 200, 1)));
}

#[test]
fn merit_action_refusals() {
    let mut p = Pallet::new(config());
    assert_eq!(
        p.perform_merit_action(Origin::Signed(ALICE), MeritAction::Prayer, 0, vec![], 1),
        Err(Error::ZeroAmount)
    );
    assert_eq!(
        p.perform_merit_action(Origin::Signed(ALICE), MeritAction::Prayer, 1, vec![], 1),
        Err(Error::InsufficientKarma)
    );
    assert_eq!(
        p.perform_merit_action(Origin::Unsigned, MeritAction::Prayer, 1, vec![], 1),
        Err(Error::BadOrigin)
    );
    assert_eq!(p.events().len(), 0);
    assert_eq!(p.next_merit_record_id(&ALICE), 0);
}

#[test]
fn recent_records_newest_first() {
    let mut p = Pallet::new(config());
    assert_eq!(p.daily_checkin(Origin::Signed(ALICE), 1), Ok(()));
    for (i, amount) in [10u128, 20, 30].iter().enumerate() {
        let r = p.do_consume_karma_for_merit(&ALICE, *amount, MeritAction::Other(i as u8), vec![i as u8], 5 + i as u32);
        assert_eq!(r, Ok(()));
    }
    let recent = p.get_recent_merit_records(&ALICE, 2);
    assert_eq!(recent.len(), 2);
    assert_eq!(recent[0].id, 2);
    assert_eq!(recent[0].amount, 30);
    assert_eq!(recent[0].at_block, 7);
    assert_eq!(recent[0].description, vec![2u8]);
    assert_eq!(recent[1].id, 1);
    assert_eq!(recent[1].action, MeritAction::Other(1));
    assert_eq!(p.get_recent_merit_records(&ALICE, 10).len(), 3);
    assert_eq!(p.get_recent_merit_records(&ALICE, 0).len(), 0);
    assert_eq!(p.get_recent_merit_records(&BOB, 10).len(), 0);
}

#[test]
fn provider_interface() {
    let mut p = Pallet::new(config());
    assert_eq!(KarmaProvider::reward_karma(&mut p, &BOB, 0, RewardReason::ManualAdjust), Err(Error::ZeroAmount));
    assert_eq!(KarmaProvider::reward_karma(&mut p, &BOB, 50, RewardReason::CommunityContribution), Ok(()));
    assert_eq!(KarmaProvider::karma_balance(&p, &BOB), 50);
    assert_eq!(KarmaProvider::consume_karma_for_merit(&mut p, &BOB, 60, MeritAction::Donation, 9), Err(Error::InsufficientKarma));
    assert_eq!(KarmaProvider::consume_karma_for_merit(&mut p, &BOB, 40, MeritAction::Donation, 9), Ok(()));
    assert_eq!(KarmaProvider::karma_balance(&p, &BOB), 10);
    assert_eq!(KarmaProvider::total_merit_value(&p, &BOB), 40);
    assert_eq!(KarmaProvider::merit_level(&p, &BOB), 1);
    let rec = p.get_recent_merit_records(&BOB, 1);
    assert_eq!(rec[0].description.len(), 0);
}

#[test]
fn reward_saturates() {
    let mut p = Pallet::new(config());
    assert_eq!(p.do_reward_karma(&ALICE, u128::MAX, RewardReason::ManualAdjust), Ok(()));
    assert_eq!(p.do_reward_karma(&ALICE, 5, RewardReason::ManualAdjust), Ok(()));
    assert_eq!(p.karma_balances(&ALICE), u128::MAX);
}

#[test]
fn genesis_sets_balances_merit_and_levels() {
    let mut p = Pallet::new(config());
    let g = GenesisConfig {
        initial_karma: vec![(ALICE, 500), (BOB, 7), (ALICE, 600)],
        initial_merit: vec![(ALICE, 5000), (BOB, 999)],
    };
    g.build(&mut p);
    assert_eq!(p.karma_balances(&ALICE), 600);
    assert_eq!(p.karma_balances(&BOB), 7);
    assert_eq!(p.total_merit_value(&ALICE), 5000);
    assert_eq!(p.user_merit_level(&ALICE), 3);
    assert_eq!(p.user_merit_level(&BOB), 1);
    let d = GenesisConfig::default();
    assert!(d.initial_karma.is_empty() && d.initial_merit.is_empty());
}
