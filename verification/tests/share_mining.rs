use buddhaland::primitives::Origin;
use buddhaland::share_mining::{
    mentions_keyword_exec, verification_outcome, Config, Error, Event, InvalidReport, Pallet,
};

const ALICE: [u8; 32] = [1u8; 32];
const BOB: [u8; 32] = [2u8; 32];
const CAROL: [u8; 32] = [3u8; 32];
const POT: [u8; 32] = [9u8; 32];

fn config() -> Config {
    Config {
        pot_account: POT,
        max_url_len: 32,
        max_participants_per_round: 100,
        http_timeout_millis: 3_000,
        unsigned_priority: 7,
    }
}

fn url(n: u8) -> Vec<u8> {
    format!("https://x.example/{}", n).into_bytes()
}

fn winner(p: &mut Pallet, who: [u8; 32], n: u8) {
    assert_eq!(p.submit_link(Origin::Signed(who), url(n), 1), Ok(()));
    assert_eq!(p.submit_verification(Origin::Unsigned, who, url(n), 1, true), Ok(()));
}

#[test]
fn keywords_are_found_in_text() {
    assert!(mentions_keyword_exec("今天的禅修很安静".as_bytes()));
    assert!(mentions_keyword_exec("佛境".as_bytes()));
    assert!(mentions_keyword_exec("abc 修心".as_bytes()));
    assert!(mentions_keyword_exec("冥想 first".as_bytes()));
    assert!(!mentions_keyword_exec("meditation".as_bytes()));
    assert!(!mentions_keyword_exec("禅".as_bytes()));
    assert!(!mentions_keyword_exec(b""));
}

#[test]
fn outcome_needs_utf8() {
    assert_eq!(verification_outcome(&[0xff, 0xfe]), None);
    assert_eq!(verification_outcome("谈佛境".as_bytes()), Some(true));
    assert_eq!(verification_outcome("nothing here".as_bytes()), Some(false));
}

#[test]
fn links_are_submitted_once_per_block() {
    let mut p = Pallet::new(config());
    assert_eq!(p.submit_link(Origin::Root, url(1), 5), Err(Error::BadOrigin));
    assert_eq!(p.submit_link(Origin::Signed(ALICE), vec![b'u'; 33], 5), Err(Error::UrlTooLong));
    assert_eq!(p.submit_link(Origin::Signed(ALICE), url(1), 5), Ok(()));
    assert_eq!(p.submit_link(Origin::Signed(ALICE), url(1), 5), Err(Error::DuplicateSubmission));
    assert_eq!(p.submit_link(Origin::Signed(ALICE), url(1), 6), Ok(()));
    assert_eq!(p.submit_link(Origin::Signed(BOB), url(1), 5), Ok(()));
    assert!(p.pending(&ALICE, &url(1), 5));
    assert!(p.pending(&ALICE, &url(1), 6));
    assert!(!p.pending(&ALICE, &url(2), 5));
    assert_eq!(p.events().len(), 3);
    match &p.events()[0] {
        Event::LinkSubmitted(w, u) => {
            assert_eq!(*w, ALICE);
            assert_eq!(u, &url(1));
        }
        _ => panic!("expected a submission event"),
    }
}

#[test]
fn reports_make_winners_once() {
    let mut p = Pallet::new(config());
    assert_eq!(p.submit_link(Origin::Signed(ALICE), url(1), 1), Ok(()));
    assert_eq!(p.submit_link(Origin::Signed(ALICE), url(2), 1), Ok(()));
    assert_eq!(p.submit_verification(Origin::Signed(ALICE), ALICE, url(1), 1, true), Err(Error::BadOrigin));
    assert_eq!(p.submit_verification(Origin::Unsigned, ALICE, url(1), 2, true), Err(Error::NotFound));
    assert_eq!(p.submit_verification(Origin::Unsigned, ALICE, url(1), 1, true), Ok(()));
    assert!(p.is_winner(&ALICE));
    assert_eq!(p.winners_count(), 1);
    assert_eq!(p.submit_verification(Origin::Unsigned, ALICE, url(1), 1, true), Err(Error::NotFound));
    assert_eq!(p.submit_verification(Origin::Unsigned, ALICE, url(2), 1, true), Ok(()));
    assert_eq!(p.winners_count(), 1);
    assert!(!p.pending(&ALICE, &url(2), 1));
    assert!(matches!(p.events().last(), Some(Event::LinkVerified(w, _, true)) if *w == ALICE));
}

#[test]
fn unmatched_report_makes_no_winner() {
    let mut p = Pallet::new(config());
    assert_eq!(p.submit_link(Origin::Signed(BOB), url(3), 4), Ok(()));
    assert_eq!(p.submit_verification(Origin::Unsigned, BOB, url(3), 4, false), Ok(()));
    assert!(!p.is_winner(&BOB));
    assert_eq!(p.winners_count(), 0);
    assert!(!p.pending(&BOB, &url(3), 4));
}

#[test]
fn worker_checks_five_links_at_a_time() {
    let mut p = Pallet::new(config());
    for n in 0..7u8 {
        assert_eq!(p.submit_link(Origin::Signed(ALICE), url(n), 1), Ok(()));
    }
    let links = p.links_to_check();
    assert_eq!(links.len(), 5);
    assert_eq!(links[0].url, url(0));
    assert_eq!(links[4].url, url(4));
    assert_eq!(links[4].at, 1);
}

#[test]
fn pool_accepts_reports_on_waiting_links_only() {
    let mut p = Pallet::new(config());
    assert_eq!(p.submit_link(Origin::Signed(ALICE), url(1), 1), Ok(()));
    let ok = p.validate_verification(&ALICE, &url(1), 1).unwrap();
    assert_eq!((ok.priority, ok.longevity, ok.propagate), (7, 64, true));
    assert_eq!((ok.provides.who, ok.provides.url.clone(), ok.provides.at), (ALICE, url(1), 1));
    assert!(matches!(p.validate_verification(&ALICE, &url(1), 2), Err(InvalidReport::Stale)));
    assert!(matches!(p.validate_verification(&ALICE, &vec![0; 33], 1), Err(InvalidReport::ExhaustsResources)));
}

#[test]
fn pot_is_split_equally_in_batches() {
    let mut p = Pallet::new(config());
    winner(&mut p, ALICE, 1);
    winner(&mut p, BOB, 2);
    winner(&mut p, CAROL, 3);
    assert!(matches!(p.distribute(Origin::Unsigned, 2, 100), Err(Error::BadOrigin)));
    let d = p.distribute(Origin::Signed(BOB), 2, 101).unwrap();
    assert_eq!(d.count(), 2);
    assert_eq!(d.per_user(), 50);
    assert_eq!(d.recipients(), &vec![ALICE, BOB]);
    assert_eq!(d.transfers().len(), 2);
    let t = d.transfers()[1];
    assert_eq!((t.from, t.to, t.amount), (POT, BOB, 50));
    assert_eq!(p.finish_distribution(&d, false), Err(Error::TransferFailed));
    assert_eq!(p.winners_count(), 3);
    assert_eq!(p.finish_distribution(&d, true), Ok(()));
    assert_eq!(p.winners_count(), 1);
    assert!(!p.is_winner(&ALICE) && !p.is_winner(&BOB) && p.is_winner(&CAROL));
    assert_eq!(p.round_id(), 0);
    assert!(matches!(p.events().last(), Some(Event::RewardsDistributed(0, 2, 50, 100))));
    let last = p.distribute(Origin::Signed(BOB), 10, 7).unwrap();
    assert_eq!((last.count(), last.per_user()), (1, 7));
    assert_eq!(p.finish_distribution(&last, true), Ok(()));
    assert_eq!(p.round_id(), 1);
    assert!(matches!(p.events().last(), Some(Event::RewardsDistributed(1, 1, 7, 7))));
    assert!(matches!(p.distribute(Origin::Signed(BOB), 10, 7), Err(Error::NoWinners)));
}

#[test]
fn too_small_pot_is_refused() {
    let mut p = Pallet::new(config());
    winner(&mut p, ALICE, 1);
    winner(&mut p, BOB, 2);
    assert!(matches!(p.distribute(Origin::Signed(ALICE), 5, 1), Err(Error::InsufficientPot)));
    assert!(matches!(p.distribute(Origin::Signed(ALICE), 0, 100), Err(Error::NoWinners)));
}

#[test]
fn round_size_is_capped() {
    let mut c = config();
    c.max_participants_per_round = 1;
    let mut p = Pallet::new(c);
    winner(&mut p, ALICE, 1);
    winner(&mut p, BOB, 2);
    let d = p.distribute(Origin::Signed(ALICE), 5, 10).unwrap();
    assert_eq!((d.count(), d.per_user()), (1, 10));
    assert_eq!(p.pot_account(), POT);
}

#[test]
fn pot_increase_is_announced() {
    let mut p = Pallet::new(config());
    assert_eq!(p.increase_pot_balance(Origin::Unsigned, 5), Err(Error::BadOrigin));
    assert_eq!(p.increase_pot_balance(Origin::Signed(ALICE), 5), Ok(()));
    assert!(matches!(p.events()[0], Event::PotIncreased(5)));
}
