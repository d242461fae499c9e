use buddhaland::meditation::{Config, Error, Event, MeditationMetrics, MeditationSession, Pallet};
use buddhaland::primitives::Origin;

const ALICE: [u8; 32] = [1u8; 32];
const BOB: [u8; 32] = [2u8; 32];

fn config() -> Config {
    Config { enable_karma_reward: true, base_reward_per_minute: 3, min_duration_minutes: 5, min_quality_score: 60 }
}

fn metrics() -> MeditationMetrics {
    MeditationMetrics { meditation_depth: 50, focus_level: 40, alpha_power: 10, theta_power: 20 }
}

fn session(start: u64, minutes: u32, quality: u8) -> MeditationSession {
    MeditationSession {
        start_time: start,
        duration_minutes: minutes,
        avg_meditation_depth: 40,
        avg_focus_level: 30,
        peak_meditation_depth: 70,
        brainwave_quality_score: quality,
        verified: false,
    }
}

#[test]
fn submitted_sessions_get_consecutive_ids() {
    let mut p = Pallet::new(config());
    let (id0, s0) = p.submit_session(Origin::Signed(ALICE), metrics(), session(0, 5, 60), 777).unwrap();
    assert_eq!(id0, 0);
    assert_eq!(s0.start_time, 777);
    let (id1, s1) = p.submit_session(Origin::Signed(ALICE), metrics(), session(12, 30, 90), 800).unwrap();
    assert_eq!(id1, 1);
    assert_eq!(s1.start_time, 12);
    assert_eq!(p.next_session_id(&ALICE), 2);
    assert_eq!(p.next_session_id(&BOB), 0);
    assert_eq!(p.session(&ALICE, 0), Some(s0));
    assert_eq!(p.session(&ALICE, 1), Some(s1));
    assert_eq!(p.session(&BOB, 0), None);
    assert!(matches!(p.events()[1], Event::SessionSubmitted(w, 1) if w == ALICE));
}

#[test]
fn submit_refusals() {
    let mut p = Pallet::new(config());
    assert_eq!(p.submit_session(Origin::Root, metrics(), session(1, 5, 60), 1), Err(Error::BadOrigin));
    assert_eq!(p.submit_session(Origin::Signed(ALICE), metrics(), session(1, 4, 60), 1), Err(Error::TooShort));
    assert_eq!(p.submit_session(Origin::Signed(ALICE), metrics(), session(1, 5, 59), 1), Err(Error::LowQuality));
    assert_eq!(p.next_session_id(&ALICE), 0);
    assert!(p.events().is_empty());
}

#[test]
fn verify_marks_once() {
    let mut p = Pallet::new(config());
    p.submit_session(Origin::Signed(ALICE), metrics(), session(1, 5, 60), 1).unwrap();
    assert_eq!(p.verify_session(Origin::Signed(ALICE), ALICE, 0), Err(Error::BadOrigin));
    assert_eq!(p.verify_session(Origin::Root, ALICE, 0), Ok(()));
    assert!(p.session(&ALICE, 0).unwrap().verified);
    assert!(matches!(p.events()[1], Event::SessionVerified(w, 0) if w == ALICE));
    assert_eq!(p.verify_session(Origin::Root, ALICE, 0), Err(Error::AlreadyVerified));
    assert_eq!(p.events().len(), 2);
}

#[test]
fn verify_missing_session_is_left_alone() {
    let mut p = Pallet::new(config());
    assert_eq!(p.verify_session(Origin::Root, BOB, 9), Ok(()));
    assert_eq!(p.session(&BOB, 9), None);
    assert!(p.events().is_empty());
}

#[test]
fn submitted_session_is_not_verified() {
    let mut p = Pallet::new(config());
    let mut claimed = session(1, 5, 60);
    claimed.verified = true;
    let (id, stored) = p.submit_session(Origin::Signed(ALICE), metrics(), claimed, 1).unwrap();
    assert!(!stored.verified);
    assert!(!p.session(&ALICE, id).unwrap().verified);
    assert_eq!(p.verify_session(Origin::Root, ALICE, id), Ok(()));
    assert!(p.session(&ALICE, id).unwrap().verified);
}
