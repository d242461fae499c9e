use buddhaland::meditation::{MeditationMetrics, MeditationSession};
use buddhaland::primitives::Origin;
use buddhaland::reward::{self, RewardWeights};
use buddhaland::runtime::{commemorate_config, exchange_config, karma_config, paymaster_config, Runtime, UNIT};

const ALICE: [u8; 32] = [1u8; 32];
const MINING: [u8; 32] = [9u8; 32];

fn reward_config() -> reward::Config {
    reward::Config {
        reward_weights: RewardWeights { base_per_minute: 3, depth_weight: 1, focus_weight: 1, quality_weight: 1 },
        only_reward_verified: false,
    }
}

#[test]
fn chain_constants() {
    let k = karma_config();
    assert_eq!(k.merit_level_thresholds, vec![1000, 5000, 20000, 100000]);
    let e = exchange_config(MINING);
    assert_eq!(e.burn_bps + e.treasury_bps + e.paymaster_bps + e.share_mining_bps, e.bps_denominator);
    assert_eq!(e.share_mining_account, MINING);
    let p = paymaster_config();
    assert_eq!(&p.pallet_id, b"paymastr");
    assert_eq!(p.minimum_deposit, 1000 * UNIT);
    assert_eq!(commemorate_config().max_files_per_ceremony, 10);
}

#[test]
fn meditation_session_is_rewarded_through_the_hook() {
    let mut rt = Runtime::new(reward_config(), MINING);
    let metrics = MeditationMetrics { meditation_depth: 50, focus_level: 40, alpha_power: 0, theta_power: 0 };
    let session = MeditationSession {
        start_time: 0,
        duration_minutes: 10,
        avg_meditation_depth: 0,
        avg_focus_level: 0,
        peak_meditation_depth: 0,
        brainwave_quality_score: 80,
        verified: false,
    };
    assert_eq!(rt.submit_meditation_session(Origin::Signed(ALICE), metrics, session, 5), Ok(0));
    assert_eq!(rt.karma.karma_balances(&ALICE), 200);
    assert_eq!(rt.meditation.session(&ALICE, 0).unwrap().start_time, 5);
    let mut short = session;
    short.duration_minutes = 1;
    assert!(rt.submit_meditation_session(Origin::Signed(ALICE), metrics, short, 6).is_err());
    assert_eq!(rt.karma.karma_balances(&ALICE), 200);
}

#[test]
fn exchange_then_pray() {
    let mut rt = Runtime::new(reward_config(), MINING);
    let plan = rt.exchange.exchange(Origin::Signed(ALICE), 1).unwrap();
    assert_eq!(rt.exchange.complete_exchange(&mut rt.karma, &mut rt.paymaster, &plan, true), Ok(()));
    assert_eq!(rt.karma.karma_balances(&ALICE), 1000);
    assert_eq!(rt.prayer.pray(&mut rt.karma, Origin::Signed(ALICE), vec![1], None, 1), Ok(()));
    assert_eq!(rt.karma.karma_balances(&ALICE), 900);
    assert_eq!(rt.karma.total_merit_value(&ALICE), 100);
}

#[test]
fn chain_merit_levels() {
    let rt = Runtime::new(reward_config(), MINING);
    assert_eq!(rt.karma.calculate_merit_level_internal(0), 0);
    assert_eq!(rt.karma.calculate_merit_level_internal(999), 0);
    assert_eq!(rt.karma.calculate_merit_level_internal(1000), 1);
    assert_eq!(rt.karma.calculate_merit_level_internal(5000), 2);
    assert_eq!(rt.karma.calculate_merit_level_internal(20000), 3);
    assert_eq!(rt.karma.calculate_merit_level_internal(99999), 3);
    assert_eq!(rt.karma.calculate_merit_level_internal(100000), 4);
}

#[test]
fn exchange_feeds_system_pool() {
    let mut rt = Runtime::new(reward_config(), MINING);
    let plan = rt.exchange.exchange(Origin::Signed(ALICE), 1000).unwrap();
    assert_eq!(plan.paymaster(), 100);
    assert_eq!(rt.exchange.complete_exchange(&mut rt.karma, &mut rt.paymaster, &plan, true), Ok(()));
    assert_eq!(rt.paymaster.get_system_pool_balance(), 100);
    assert_eq!(rt.karma.karma_balances(&ALICE), 1_000_000);
}
