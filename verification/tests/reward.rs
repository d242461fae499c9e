use buddhaland::karma;
use buddhaland::meditation::{MeditationMetrics, MeditationSession, RewardHook};
use buddhaland::primitives::Origin;
use buddhaland::reward::{Config, Error, Event, Pallet, RewardWeights};

const ALICE: [u8; 32] = [1u8; 32];

fn weights() -> RewardWeights {
    RewardWeights { base_per_minute: 3, depth_weight: 1, focus_weight: 1, quality_weight: 1 }
}

fn metrics() -> MeditationMetrics {
    MeditationMetrics { meditation_depth: 50, focus_level: 40, alpha_power: 0, theta_power: 0 }
}

fn session(verified: bool) -> MeditationSession {
    MeditationSession {
        start_time: 1,
        duration_minutes: 10,
        avg_meditation_depth: 0,
        avg_focus_level: 0,
        peak_meditation_depth: 0,
        brainwave_quality_score: 80,
        verified,
    }
}

fn karma_pallet() -> karma::Pallet {
    karma::Pallet::new(karma::Config {
        base_checkin_reward: 1000,
        max_consecutive_multiplier: 7,
        min_blocks_between_checkins: 14400,
        merit_level_thresholds: vec![0],
    })
}

#[test]
fn reward_is_weighted_sum() {
    let p = Pallet::new(Config { reward_weights: weights(), only_reward_verified: false });
    // 10 * 3 + 50 + 40 + 80
    assert_eq!(p.calculate_reward_internal(&metrics(), &session(false)), 200);
}

#[test]
fn session_reward_saturates() {
    let w = RewardWeights { base_per_minute: u128::MAX, depth_weight: 1, focus_weight: 1, quality_weight: 1 };
    let p = Pallet::new(Config { reward_weights: w, only_reward_verified: false });
    assert_eq!(p.calculate_reward_internal(&metrics(), &session(false)), u128::MAX);
}

#[test]
fn grant_for_session_by_root() {
    let mut p = Pallet::new(Config { reward_weights: weights(), only_reward_verified: false });
    let mut k = karma_pallet();
    assert_eq!(p.grant_for_session(&mut k, Origin::Root, ALICE, 4, metrics(), session(false)), Ok(()));
    assert_eq!(k.karma_balances(&ALICE), 200);
    assert!(matches!(p.deposited()[0], Event::RewardGranted(w, 4, 200) if w == ALICE));
}

#[test]
fn grant_for_session_refusals() {
    let mut p = Pallet::new(Config { reward_weights: weights(), only_reward_verified: true });
    let mut k = karma_pallet();
    assert_eq!(
        p.grant_for_session(&mut k, Origin::Signed(ALICE), ALICE, 0, metrics(), session(true)),
        Err(Error::BadOrigin)
    );
    assert_eq!(
        p.grant_for_session(&mut k, Origin::Root, ALICE, 0, metrics(), session(false)),
        Err(Error::NotVerified)
    );
    let zero = RewardWeights { base_per_minute: 0, depth_weight: 0, focus_weight: 0, quality_weight: 0 };
    let mut z = Pallet::new(Config { reward_weights: zero, only_reward_verified: false });
    assert_eq!(
        z.grant_for_session(&mut k, Origin::Root, ALICE, 0, metrics(), session(true)),
        Err(Error::ZeroReward)
    );
    assert_eq!(k.karma_balances(&ALICE), 0);
    assert!(p.deposited().is_empty());
}

#[test]
fn hook_skips_unverified_when_asked() {
    let mut p = Pallet::new(Config { reward_weights: weights(), only_reward_verified: true });
    let mut k = karma_pallet();
    p.on_session_submitted(&mut k, &ALICE, 0, metrics(), session(false));
    assert_eq!(k.karma_balances(&ALICE), 0);
    p.on_session_submitted(&mut k, &ALICE, 1, metrics(), session(true));
    assert_eq!(k.karma_balances(&ALICE), 200);
    assert_eq!(p.deposited().len(), 1);
}
