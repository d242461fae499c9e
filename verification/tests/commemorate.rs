use buddhaland::commemorate::{
    CeremonyType, Config, Error, Event, IpfsFile, ModernCeremony, Pallet, TraditionalCeremony,
};
use buddhaland::karma::{self, MeritAction, RewardReason};
use buddhaland::primitives::Origin;

const ALICE: [u8; 32] = [1u8; 32];
const BOB: [u8; 32] = [2u8; 32];

fn config() -> Config {
    Config {
        max_name_length: 100,
        max_description_length: 1000,
        max_message_length: 500,
        max_memorials_per_account: 50,
        create_memorial_cost: 100,
        base_traditional_cost: 20,
        base_modern_cost: 15,
        max_ipfs_hash_length: 64,
        max_file_name_length: 256,
        max_files_per_memorial: 100,
        max_files_per_ceremony: 10,
    }
}

fn karma_with(who: &[u8; 32], amount: u128) -> karma::Pallet {
    let mut k = karma::Pallet::new(karma::Config {
        base_checkin_reward: 1000,
        max_consecutive_multiplier: 7,
        min_blocks_between_checkins: 14400,
        merit_level_thresholds: vec![0, 1000],
    });
    assert_eq!(k.do_reward_karma(who, amount, RewardReason::ManualAdjust), Ok(()));
    k
}

fn file(hash_len: usize, name_len: usize, type_len: usize) -> IpfsFile {
    IpfsFile { hash: vec![b'h'; hash_len], file_type: vec![b't'; type_len], size: 10, name: vec![b'n'; name_len] }
}

fn create(p: &mut Pallet, k: &mut karma::Pallet, who: [u8; 32], public: bool) -> Result<(), Error> {
    p.create_memorial(
        k,
        Origin::Signed(who),
        b"Grandma".to_vec(),
        Some(b"1930-01-01".to_vec()),
        None,
        b"Loved by all".to_vec(),
        public,
        Some(vec![b'q'; 46]),
        1_700_000_000_000,
        12,
    )
}

#[test]
fn create_memorial_spends_karma() {
    let mut k = karma_with(&ALICE, 500);
    let mut p = Pallet::new(config());
    assert_eq!(create(&mut p, &mut k, ALICE, true), Ok(()));
    assert_eq!(k.karma_balances(&ALICE), 400);
    let rec = k.get_recent_merit_records(&ALICE, 1);
    assert_eq!(rec[0].action, MeritAction::SocialInteraction);
    assert_eq!(rec[0].description, b"Create Memorial".to_vec());
    assert_eq!(rec[0].at_block, 12);
    assert_eq!(p.next_memorial_id(), 1);
    assert_eq!(p.get_account_memorials(&ALICE), vec![0]);
    let m = p.memorial(0).unwrap();
    assert_eq!(m.creator, ALICE);
    assert_eq!(m.name, b"Grandma".to_vec());
    assert_eq!(m.birth_date, Some(b"1930-01-01".to_vec()));
    assert_eq!(m.death_date, None);
    assert_eq!(m.created_at, 1_700_000_000_000);
    assert_eq!(m.total_ceremonies, 0);
    assert!(m.gallery_files.is_empty());
    match &p.events()[0] {
        Event::MemorialCreated(w, 0, n) => {
            assert_eq!(*w, ALICE);
            assert_eq!(n, &b"Grandma".to_vec());
        }
        _ => panic!("expected a creation event"),
    }
}

#[test]
fn create_memorial_refusals() {
    let mut k = karma_with(&ALICE, 50);
    let mut p = Pallet::new(config());
    let long = vec![b'x'; 101];
    assert_eq!(
        p.create_memorial(&mut k, Origin::Signed(ALICE), long, None, None, vec![], true, None, 1, 1),
        Err(Error::NameTooLong)
    );
    assert_eq!(
        p.create_memorial(&mut k, Origin::Signed(ALICE), vec![], None, None, vec![0; 1001], true, None, 1, 1),
        Err(Error::DescriptionTooLong)
    );
    assert_eq!(
        p.create_memorial(&mut k, Origin::Signed(ALICE), vec![], None, None, vec![], true, Some(vec![0; 65]), 1, 1),
        Err(Error::IpfsHashTooLong)
    );
    assert_eq!(create(&mut p, &mut k, ALICE, true), Err(Error::NoPermission));
    assert_eq!(
        p.create_memorial(&mut k, Origin::Root, vec![], None, None, vec![], true, None, 1, 1),
        Err(Error::BadOrigin)
    );
    assert_eq!(k.karma_balances(&ALICE), 50);
    assert_eq!(p.next_memorial_id(), 0);
    assert!(p.events().is_empty());
}

#[test]
fn memorials_per_account_are_limited() {
    let mut c = config();
    c.max_memorials_per_account = 1;
    let mut k = karma_with(&ALICE, 1_000);
    let mut p = Pallet::new(c);
    assert_eq!(create(&mut p, &mut k, ALICE, true), Ok(()));
    assert_eq!(create(&mut p, &mut k, ALICE, true), Err(Error::TooManyMemorials));
    assert_eq!(k.karma_balances(&ALICE), 900);
}

#[test]
fn media_is_added_by_creator() {
    let mut k = karma_with(&ALICE, 500);
    let mut p = Pallet::new(config());
    assert_eq!(create(&mut p, &mut k, ALICE, true), Ok(()));
    assert_eq!(p.add_memorial_media(Origin::Signed(BOB), 0, vec![file(46, 5, 5)]), Err(Error::NoPermission));
    assert_eq!(p.add_memorial_media(Origin::Signed(ALICE), 9, vec![]), Err(Error::MemorialNotFound));
    assert_eq!(p.add_memorial_media(Origin::Signed(ALICE), 0, vec![file(65, 5, 5)]), Err(Error::IpfsHashTooLong));
    assert_eq!(p.add_memorial_media(Origin::Signed(ALICE), 0, vec![file(46, 257, 5)]), Err(Error::FileNameTooLong));
    assert_eq!(
        p.add_memorial_media(Origin::Signed(ALICE), 0, vec![file(46, 5, 5), file(46, 5, 21)]),
        Err(Error::InvalidFileType)
    );
    let many: Vec<IpfsFile> = (0..101).map(|_| file(1, 1, 1)).collect();
    assert_eq!(p.add_memorial_media(Origin::Signed(ALICE), 0, many), Err(Error::TooManyFiles));
    assert_eq!(p.memorial(0).unwrap().gallery_files.len(), 0);
    assert_eq!(p.add_memorial_media(Origin::Signed(ALICE), 0, vec![file(46, 5, 5), file(10, 2, 20)]), Ok(()));
    let m = p.memorial(0).unwrap();
    assert_eq!(m.gallery_files.len(), 2);
    assert_eq!(m.gallery_files[1].hash, vec![b'h'; 10]);
    assert_eq!(p.events().len(), 3);
    match &p.events()[2] {
        Event::IpfsFileUploaded(0, h, t) => {
            assert_eq!(h, &vec![b'h'; 10]);
            assert_eq!(t, &vec![b't'; 20]);
        }
        _ => panic!("expected an upload event"),
    }
}

#[test]
fn traditional_ceremony_is_recorded() {
    let mut k = karma_with(&ALICE, 500);
    let mut p = Pallet::new(config());
    assert_eq!(create(&mut p, &mut k, ALICE, true), Ok(()));
    assert_eq!(k.do_reward_karma(&BOB, 100, RewardReason::ManualAdjust), Ok(()));
    let r = p.perform_traditional_ceremony(
        &mut k,
        Origin::Signed(BOB),
        0,
        TraditionalCeremony::BurnIncense,
        b"rest well".to_vec(),
        None,
        vec![],
        55,
        13,
    );
    assert_eq!(r, Ok(()));
    assert_eq!(k.karma_balances(&BOB), 80);
    let rec = k.get_recent_merit_records(&BOB, 1);
    assert_eq!(rec[0].description, b"Traditional Ceremony: BurnIncense".to_vec());
    assert_eq!(rec[0].amount, 20);
    assert_eq!(p.memorial_record_count(0), 1);
    assert_eq!(p.memorial(0).unwrap().total_ceremonies, 1);
    let records = p.get_memorial_records(0);
    assert_eq!(records.len(), 1);
    assert_eq!(records[0].participant, BOB);
    assert_eq!(records[0].ceremony_type, CeremonyType::Traditional(TraditionalCeremony::BurnIncense));
    assert_eq!(records[0].karma_cost, 20);
    assert_eq!(records[0].message, b"rest well".to_vec());
    assert_eq!(records[0].timestamp, 55);
    assert_eq!(p.events().len(), 2);
    assert!(matches!(
        p.events()[1],
        Event::CeremonyPerformed(0, w, CeremonyType::Traditional(TraditionalCeremony::BurnIncense), 20) if w == BOB
    ));
}

#[test]
fn modern_ceremony_with_media() {
    let mut k = karma_with(&ALICE, 500);
    let mut p = Pallet::new(config());
    assert_eq!(create(&mut p, &mut k, ALICE, false), Ok(()));
    let r = p.perform_modern_ceremony(
        &mut k,
        Origin::Signed(ALICE),
        0,
        ModernCeremony::PlayMusic,
        vec![],
        Some(33),
        vec![file(46, 5, 5), file(46, 5, 5)],
        1,
        2,
    );
    assert_eq!(r, Ok(()));
    assert_eq!(k.karma_balances(&ALICE), 367);
    assert_eq!(k.get_recent_merit_records(&ALICE, 1)[0].description, b"Modern Ceremony: PlayMusic".to_vec());
    assert_eq!(p.get_memorial_records(0)[0].attached_files.len(), 2);
    assert!(matches!(p.events()[2], Event::CeremonyMediaAdded(0, w, 2) if w == ALICE));
}

#[test]
fn ceremony_refusals() {
    let mut k = karma_with(&ALICE, 500);
    let mut p = Pallet::new(config());
    assert_eq!(create(&mut p, &mut k, ALICE, false), Ok(()));
    assert_eq!(k.do_reward_karma(&BOB, 100, RewardReason::ManualAdjust), Ok(()));
    let go = |p: &mut Pallet, k: &mut karma::Pallet, who, id, msg: Vec<u8>, amt, files| {
        p.perform_traditional_ceremony(k, Origin::Signed(who), id, TraditionalCeremony::Kowtow, msg, amt, files, 1, 1)
    };
    assert_eq!(go(&mut p, &mut k, BOB, 0, vec![], None, vec![]), Err(Error::AccessDenied));
    assert_eq!(go(&mut p, &mut k, ALICE, 7, vec![], None, vec![]), Err(Error::MemorialNotFound));
    assert_eq!(go(&mut p, &mut k, ALICE, 0, vec![0; 501], None, vec![]), Err(Error::MessageTooLong));
    let eleven: Vec<IpfsFile> = (0..11).map(|_| file(1, 1, 1)).collect();
    assert_eq!(go(&mut p, &mut k, ALICE, 0, vec![], None, eleven), Err(Error::TooManyFiles));
    assert_eq!(go(&mut p, &mut k, ALICE, 0, vec![], None, vec![file(65, 1, 1)]), Err(Error::IpfsHashTooLong));
    assert_eq!(go(&mut p, &mut k, ALICE, 0, vec![], Some(10_000), vec![]), Err(Error::NoPermission));
    assert_eq!(go(&mut p, &mut k, ALICE, 0, vec![], Some(0), vec![]), Err(Error::NoPermission));
    assert_eq!(
        p.perform_modern_ceremony(&mut k, Origin::Unsigned, 0, ModernCeremony::OfferFlowers, vec![], None, vec![], 1, 1),
        Err(Error::BadOrigin)
    );
    assert_eq!(k.karma_balances(&ALICE), 400);
    assert_eq!(p.memorial_record_count(0), 0);
    assert_eq!(p.events().len(), 1);
}

#[test]
fn earlier_ceremony_records_are_kept() {
    let mut k = karma_with(&ALICE, 500);
    let mut p = Pallet::new(config());
    assert_eq!(create(&mut p, &mut k, ALICE, true), Ok(()));
    let first = p.perform_modern_ceremony(
        &mut k, Origin::Signed(ALICE), 0, ModernCeremony::WriteMessage, b"one".to_vec(), None, vec![], 1, 1,
    );
    assert_eq!(first, Ok(()));
    let second = p.perform_traditional_ceremony(
        &mut k, Origin::Signed(ALICE), 0, TraditionalCeremony::OfferFood, b"two".to_vec(), Some(5), vec![], 2, 2,
    );
    assert_eq!(second, Ok(()));
    let records = p.get_memorial_records(0);
    assert_eq!(records.len(), 2);
    assert_eq!(records[0].message, b"one".to_vec());
    assert_eq!(records[0].karma_cost, 15);
    assert_eq!(records[1].message, b"two".to_vec());
    assert_eq!(records[1].karma_cost, 5);
    assert_eq!(p.memorial(0).unwrap().total_ceremonies, 2);
    assert_eq!(k.karma_balances(&ALICE), 380);
}
