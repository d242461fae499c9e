//! Commemoration: accounts spend karma to open memorial halls for the
//! departed, add media to them (files kept on IPFS, identified by hash), and
//! hold traditional or modern ceremonies in them.
use vstd::prelude::*;
use vstd::slice::slice_to_vec;
use vstd::string::is_ascii;
use crate::karma;
use crate::karma::{KarmaBalance, MeritAction, consumed, karma_of};
use crate::primitives::{AccountId, BlockNumber, Moment, Origin, ensure_signed, signer};
use crate::storage::{KeyMap, MapKey, value_or};

verus! {

/// A file stored on IPFS.
#[derive(Debug)]
pub struct IpfsFile {
    /// IPFS hash of the file.
    pub hash: Vec<u8>,
    /// Kind of file (image, audio, video, document).
    pub file_type: Vec<u8>,
    /// Size in bytes.
    pub size: u64,
    /// Name of the file.
    pub name: Vec<u8>,
}

/// An IPFS file with its byte strings as sequences.
pub struct IpfsFileView {
    pub hash: Seq<u8>,
    pub file_type: Seq<u8>,
    pub size: u64,
    pub name: Seq<u8>,
}

impl View for IpfsFile {
    type V = IpfsFileView;

    open spec fn view(&self) -> IpfsFileView {
        IpfsFileView {
            hash: self.hash@,
            file_type: self.file_type@,
            size: self.size,
            name: self.name@,
        }
    }
}

/// The views of a sequence of files.
pub open spec fn files_view(files: Seq<IpfsFile>) -> Seq<IpfsFileView> {
    files.map_values(|f: IpfsFile| f@)
}

/// The view of an optional byte string.
pub open spec fn opt_bytes(b: Option<Vec<u8>>) -> Option<Seq<u8>> {
    match b {
        Some(v) => Some(v@),
        None => None,
    }
}

fn copy_bytes(v: &Vec<u8>) -> (r: Vec<u8>)
    ensures
        r@ == v@,
{
    let c = v.clone();
    assert(c@ =~= v@);
    c
}

impl IpfsFile {
    /// A copy of this file.
    pub fn copy(&self) -> (r: IpfsFile)
        ensures
            r@ == self@,
    {
        IpfsFile {
            hash: copy_bytes(&self.hash),
            file_type: copy_bytes(&self.file_type),
            size: self.size,
            name: copy_bytes(&self.name),
        }
    }
}

fn copy_files(files: &Vec<IpfsFile>) -> (r: Vec<IpfsFile>)
    ensures
        files_view(r@) == files_view(files@),
{
    let mut out: Vec<IpfsFile> = Vec::new();
    let mut i: usize = 0;
    while i < files.len()
        invariant
            i <= files@.len(),
            files_view(out@) == files_view(files@.subrange(0, i as int)),
        decreases files@.len() - i,
    {
        let c = files[i].copy();
        let ghost before = out@;
        out.push(c);
        assert(files_view(out@) =~= files_view(before).push(c@));
        assert(files@.subrange(0, i + 1) =~= files@.subrange(0, i as int).push(files@[i as int]));
        assert(files_view(files@.subrange(0, i + 1)) =~= files_view(
            files@.subrange(0, i as int),
        ).push(files@[i as int]@));
        i = i + 1;
    }
    assert(files@.subrange(0, i as int) =~= files@);
    out
}

/// A memorial hall.
#[derive(Debug)]
pub struct MemorialInfo {
    pub creator: AccountId,
    /// Name of the departed.
    pub name: Vec<u8>,
    pub birth_date: Option<Vec<u8>>,
    pub death_date: Option<Vec<u8>>,
    pub description: Vec<u8>,
    /// Time of creation.
    pub created_at: u64,
    pub total_visits: u32,
    pub total_ceremonies: u32,
    /// Whether every account may hold ceremonies here.
    pub is_public: bool,
    /// IPFS hash of the portrait.
    pub avatar_ipfs: Option<Vec<u8>>,
    /// Files of the gallery.
    pub gallery_files: Vec<IpfsFile>,
}

/// A memorial with its byte strings as sequences.
pub struct MemorialView {
    pub creator: AccountId,
    pub name: Seq<u8>,
    pub birth_date: Option<Seq<u8>>,
    pub death_date: Option<Seq<u8>>,
    pub description: Seq<u8>,
    pub created_at: u64,
    pub total_visits: u32,
    pub total_ceremonies: u32,
    pub is_public: bool,
    pub avatar_ipfs: Option<Seq<u8>>,
    pub gallery_files: Seq<IpfsFileView>,
}

impl View for MemorialInfo {
    type V = MemorialView;

    open spec fn view(&self) -> MemorialView {
        MemorialView {
            creator: self.creator,
            name: self.name@,
            birth_date: opt_bytes(self.birth_date),
            death_date: opt_bytes(self.death_date),
            description: self.description@,
            created_at: self.created_at,
            total_visits: self.total_visits,
            total_ceremonies: self.total_ceremonies,
            is_public: self.is_public,
            avatar_ipfs: opt_bytes(self.avatar_ipfs),
            gallery_files: files_view(self.gallery_files@),
        }
    }
}

/// A traditional rite.
#[derive(Clone, Copy, Debug, PartialEq, Eq, Structural)]
pub enum TraditionalCeremony {
    OfferFlowers,
    LightCandles,
    BurnIncense,
    OfferFood,
    BurnPaperMoney,
    Kowtow,
}

/// A modern act of remembrance.
#[derive(Clone, Copy, Debug, PartialEq, Eq, Structural)]
pub enum ModernCeremony {
    OfferFlowers,
    LightPrayerLamps,
    WriteMessage,
    PlayMusic,
    ShareMemories,
    OnlineMemorial,
}

/// A ceremony of either kind.
#[derive(Clone, Copy, Debug, PartialEq, Eq, Structural)]
pub enum CeremonyType {
    Traditional(TraditionalCeremony),
    Modern(ModernCeremony),
}

/// A ceremony held in a memorial.
#[derive(Debug)]
pub struct CeremonyRecord {
    pub participant: AccountId,
    pub ceremony_type: CeremonyType,
    /// Karma spent.
    pub karma_cost: KarmaBalance,
    pub message: Vec<u8>,
    pub timestamp: u64,
    /// Attached media.
    pub attached_files: Vec<IpfsFile>,
}

/// A ceremony record with its byte strings as sequences.
pub struct CeremonyRecordView {
    pub participant: AccountId,
    pub ceremony_type: CeremonyType,
    pub karma_cost: KarmaBalance,
    pub message: Seq<u8>,
    pub timestamp: u64,
    pub attached_files: Seq<IpfsFileView>,
}

impl View for CeremonyRecord {
    type V = CeremonyRecordView;

    open spec fn view(&self) -> CeremonyRecordView {
        CeremonyRecordView {
            participant: self.participant,
            ceremony_type: self.ceremony_type,
            karma_cost: self.karma_cost,
            message: self.message@,
            timestamp: self.timestamp,
            attached_files: files_view(self.attached_files@),
        }
    }
}

impl CeremonyRecord {
    /// A copy of this record.
    pub fn copy(&self) -> (r: CeremonyRecord)
        ensures
            r@ == self@,
    {
        CeremonyRecord {
            participant: self.participant,
            ceremony_type: self.ceremony_type,
            karma_cost: self.karma_cost,
            message: copy_bytes(&self.message),
            timestamp: self.timestamp,
            attached_files: copy_files(&self.attached_files),
        }
    }
}

/// Constants of the commemoration pallet.
#[derive(Clone, Copy, Debug)]
pub struct Config {
    pub max_name_length: u32,
    pub max_description_length: u32,
    pub max_message_length: u32,
    pub max_memorials_per_account: u32,
    /// Karma spent to open a memorial.
    pub create_memorial_cost: KarmaBalance,
    /// Karma spent on a traditional ceremony when the caller names no amount.
    pub base_traditional_cost: KarmaBalance,
    /// Karma spent on a modern ceremony when the caller names no amount.
    pub base_modern_cost: KarmaBalance,
    pub max_ipfs_hash_length: u32,
    pub max_file_name_length: u32,
    pub max_files_per_memorial: u32,
    pub max_files_per_ceremony: u32,
}

/// Events of the commemoration pallet.
#[derive(Debug)]
pub enum Event {
    /// A memorial was opened: creator, memorial, name of the departed.
    MemorialCreated(AccountId, u32, Vec<u8>),
    MemorialUpdated(u32, AccountId),
    /// A ceremony was held: memorial, participant, ceremony, karma spent.
    CeremonyPerformed(u32, AccountId, CeremonyType, KarmaBalance),
    MemorialVisited(u32, AccountId),
    /// A file was added to a gallery: memorial, hash, kind of file.
    IpfsFileUploaded(u32, Vec<u8>, Vec<u8>),
    /// Media were attached to a ceremony: memorial, participant, number of files.
    CeremonyMediaAdded(u32, AccountId, u32),
}

/// An event with its byte strings as sequences.
pub enum EventView {
    MemorialCreated(AccountId, u32, Seq<u8>),
    MemorialUpdated(u32, AccountId),
    CeremonyPerformed(u32, AccountId, CeremonyType, KarmaBalance),
    MemorialVisited(u32, AccountId),
    IpfsFileUploaded(u32, Seq<u8>, Seq<u8>),
    CeremonyMediaAdded(u32, AccountId, u32),
}

impl View for Event {
    type V = EventView;

    open spec fn view(&self) -> EventView {
        match self {
            Event::MemorialCreated(a, id, n) => EventView::MemorialCreated(*a, *id, n@),
            Event::MemorialUpdated(id, a) => EventView::MemorialUpdated(*id, *a),
            Event::CeremonyPerformed(id, a, c, k) => EventView::CeremonyPerformed(*id, *a, *c, *k),
            Event::MemorialVisited(id, a) => EventView::MemorialVisited(*id, *a),
            Event::IpfsFileUploaded(id, h, t) => EventView::IpfsFileUploaded(*id, h@, t@),
            Event::CeremonyMediaAdded(id, a, n) => EventView::CeremonyMediaAdded(*id, *a, *n),
        }
    }
}

/// Errors of the commemoration pallet.
#[derive(Clone, Copy, Debug, PartialEq, Eq, Structural)]
pub enum Error {
    MemorialNotFound,
    NameTooLong,
    DescriptionTooLong,
    MessageTooLong,
    TooManyMemorials,
    /// Not the creator, or the karma could not be spent.
    NoPermission,
    /// The memorial is private and the caller is not its creator.
    AccessDenied,
    InvalidCeremonyType,
    IpfsHashTooLong,
    FileNameTooLong,
    TooManyFiles,
    InvalidFileType,
    /// The call was not signed.
    BadOrigin,
}

/// The bytes of an ASCII text.
pub open spec fn ascii(s: Seq<char>) -> Seq<u8> {
    Seq::new(s.len(), |i: int| s[i] as u8)
}

fn ascii_bytes(s: &str) -> (r: Vec<u8>)
    requires
        is_ascii(s),
    ensures
        r@ == ascii(s@),
{
    broadcast use vstd::string::is_ascii_spec_bytes;

    let b = s.as_bytes();
    let r = slice_to_vec(b);
    assert(r@ =~= ascii(s@));
    r
}

/// The name of a traditional rite.
pub open spec fn traditional_name(c: TraditionalCeremony) -> Seq<char> {
    match c {
        TraditionalCeremony::OfferFlowers => "OfferFlowers"@,
        TraditionalCeremony::LightCandles => "LightCandles"@,
        TraditionalCeremony::BurnIncense => "BurnIncense"@,
        TraditionalCeremony::OfferFood => "OfferFood"@,
        TraditionalCeremony::BurnPaperMoney => "BurnPaperMoney"@,
        TraditionalCeremony::Kowtow => "Kowtow"@,
    }
}

/// The name of a modern act of remembrance.
pub open spec fn modern_name(c: ModernCeremony) -> Seq<char> {
    match c {
        ModernCeremony::OfferFlowers => "OfferFlowers"@,
        ModernCeremony::LightPrayerLamps => "LightPrayerLamps"@,
        ModernCeremony::WriteMessage => "WriteMessage"@,
        ModernCeremony::PlayMusic => "PlayMusic"@,
        ModernCeremony::ShareMemories => "ShareMemories"@,
        ModernCeremony::OnlineMemorial => "OnlineMemorial"@,
    }
}

/// The description of the karma spent on a ceremony.
pub open spec fn ceremony_description(c: CeremonyType) -> Seq<u8> {
    match c {
        CeremonyType::Traditional(t) => ascii("Traditional Ceremony: "@ + traditional_name(t)),
        CeremonyType::Modern(m) => ascii("Modern Ceremony: "@ + modern_name(m)),
    }
}

/// The description of the karma spent on opening a memorial.
pub open spec fn create_memorial_description() -> Seq<u8> {
    ascii("Create Memorial"@)
}

fn traditional_name_bytes(c: TraditionalCeremony) -> (r: Vec<u8>)
    ensures
        r@ == ascii(traditional_name(c)),
{
    match c {
        TraditionalCeremony::OfferFlowers => {
            proof {
                reveal_strlit("OfferFlowers");
            }
            ascii_bytes("OfferFlowers")
        },
        TraditionalCeremony::LightCandles => {
            proof {
                reveal_strlit("LightCandles");
            }
            ascii_bytes("LightCandles")
        },
        TraditionalCeremony::BurnIncense => {
            proof {
                reveal_strlit("BurnIncense");
            }
            ascii_bytes("BurnIncense")
        },
        TraditionalCeremony::OfferFood => {
            proof {
                reveal_strlit("OfferFood");
            }
            ascii_bytes("OfferFood")
        },
        TraditionalCeremony::BurnPaperMoney => {
            proof {
                reveal_strlit("BurnPaperMoney");
            }
            ascii_bytes("BurnPaperMoney")
        },
        TraditionalCeremony::Kowtow => {
            proof {
                reveal_strlit("Kowtow");
            }
            ascii_bytes("Kowtow")
        },
    }
}

fn modern_name_bytes(c: ModernCeremony) -> (r: Vec<u8>)
    ensures
        r@ == ascii(modern_name(c)),
{
    match c {
        ModernCeremony::OfferFlowers => {
            proof {
                reveal_strlit("OfferFlowers");
            }
            ascii_bytes("OfferFlowers")
        },
        ModernCeremony::LightPrayerLamps => {
            proof {
                reveal_strlit("LightPrayerLamps");
            }
            ascii_bytes("LightPrayerLamps")
        },
        ModernCeremony::WriteMessage => {
            proof {
                reveal_strlit("WriteMessage");
            }
            ascii_bytes("WriteMessage")
        },
        ModernCeremony::PlayMusic => {
            proof {
                reveal_strlit("PlayMusic");
            }
            ascii_bytes("PlayMusic")
        },
        ModernCeremony::ShareMemories => {
            proof {
                reveal_strlit("ShareMemories");
            }
            ascii_bytes("ShareMemories")
        },
        ModernCeremony::OnlineMemorial => {
            proof {
                reveal_strlit("OnlineMemorial");
            }
            ascii_bytes("OnlineMemorial")
        },
    }
}

/// The description of the karma spent on a ceremony, as bytes.
fn ceremony_description_bytes(c: CeremonyType) -> (r: Vec<u8>)
    ensures
        r@ == ceremony_description(c),
{
    match c {
        CeremonyType::Traditional(t) => {
            proof {
                reveal_strlit("Traditional Ceremony: ");
            }
            let mut r = ascii_bytes("Traditional Ceremony: ");
            let mut name = traditional_name_bytes(t);
            r.append(&mut name);
            assert(r@ =~= ceremony_description(c));
            r
        },
        CeremonyType::Modern(m) => {
            proof {
                reveal_strlit("Modern Ceremony: ");
            }
            let mut r = ascii_bytes("Modern Ceremony: ");
            let mut name = modern_name_bytes(m);
            r.append(&mut name);
            assert(r@ =~= ceremony_description(c));
            r
        },
    }
}

/// The description of the karma spent on opening a memorial, as bytes.
fn create_memorial_description_bytes() -> (r: Vec<u8>)
    ensures
        r@ == create_memorial_description(),
{
    proof {
        reveal_strlit("Create Memorial");
    }
    ascii_bytes("Create Memorial")
}

/// The first file of `files`, from the front, whose hash, name or kind is
/// too long, and which of the three: the error it raises.
pub open spec fn first_media_error(files: Seq<IpfsFileView>, c: Config) -> Option<Error>
    decreases files.len(),
{
    if files.len() == 0 {
        None
    } else if files[0].hash.len() > c.max_ipfs_hash_length {
        Some(Error::IpfsHashTooLong)
    } else if files[0].name.len() > c.max_file_name_length {
        Some(Error::FileNameTooLong)
    } else if files[0].file_type.len() > 20 {
        Some(Error::InvalidFileType)
    } else {
        first_media_error(files.drop_first(), c)
    }
}

/// The first file of `files`, from the front, whose hash or name is too
/// long: the error it raises.
pub open spec fn first_attachment_error(files: Seq<IpfsFileView>, c: Config) -> Option<Error>
    decreases files.len(),
{
    if files.len() == 0 {
        None
    } else if files[0].hash.len() > c.max_ipfs_hash_length {
        Some(Error::IpfsHashTooLong)
    } else if files[0].name.len() > c.max_file_name_length {
        Some(Error::FileNameTooLong)
    } else {
        first_attachment_error(files.drop_first(), c)
    }
}

/// The events of adding `files` to the gallery of memorial `id`.
pub open spec fn media_events(id: u32, files: Seq<IpfsFileView>) -> Seq<EventView> {
    files.map_values(|f: IpfsFileView| EventView::IpfsFileUploaded(id, f.hash, f.file_type))
}

/// The state of the commemoration pallet.
pub struct CommemorateState {
    /// Memorials by identifier.
    pub memorials: Map<u32, MemorialView>,
    /// Identifier of the next memorial.
    pub next_memorial_id: u32,
    /// Memorials opened by each account, in order.
    pub account_memorials: Map<AccountId, Seq<u32>>,
    /// Ceremony records, by memorial and index.
    pub ceremony_records: Map<(u32, u32), CeremonyRecordView>,
    /// Number of ceremony records of each memorial.
    pub record_counts: Map<u32, u32>,
    /// Events deposited, oldest first.
    pub events: Seq<EventView>,
}

/// No account holds more memorials than an account may.
pub open spec fn lists_bounded(s: CommemorateState, c: Config) -> bool {
    forall|a: AccountId|
        #[trigger] s.account_memorials.contains_key(a) ==> s.account_memorials[a].len()
            <= c.max_memorials_per_account
}

/// Memorials opened by `who`.
pub open spec fn memorials_of(s: CommemorateState, who: AccountId) -> Seq<u32> {
    value_or(s.account_memorials, who, Seq::empty())
}

/// Number of ceremony records of memorial `id`.
pub open spec fn record_count_of(s: CommemorateState, id: u32) -> u32 {
    value_or(s.record_counts, id, 0)
}

/// Why opening a memorial is refused, if it is.
pub open spec fn create_error(
    s: CommemorateState,
    c: Config,
    k: karma::KarmaState,
    who: AccountId,
    name: Seq<u8>,
    description: Seq<u8>,
    avatar_ipfs: Option<Seq<u8>>,
) -> Option<Error> {
    if name.len() > c.max_name_length {
        Some(Error::NameTooLong)
    } else if description.len() > c.max_description_length {
        Some(Error::DescriptionTooLong)
    } else if (avatar_ipfs matches Some(h) && h.len() > c.max_ipfs_hash_length) {
        Some(Error::IpfsHashTooLong)
    } else if memorials_of(s, who).len() >= c.max_memorials_per_account {
        Some(Error::TooManyMemorials)
    } else if c.create_memorial_cost == 0 || karma_of(k, who) < c.create_memorial_cost {
        Some(Error::NoPermission)
    } else {
        None
    }
}

/// Why a ceremony of `who` in memorial `id` costing `cost` is refused, if it is.
pub open spec fn ceremony_error(
    s: CommemorateState,
    c: Config,
    k: karma::KarmaState,
    who: AccountId,
    id: u32,
    message: Seq<u8>,
    files: Seq<IpfsFileView>,
    cost: KarmaBalance,
) -> Option<Error> {
    if message.len() > c.max_message_length {
        Some(Error::MessageTooLong)
    } else if files.len() > c.max_files_per_ceremony {
        Some(Error::TooManyFiles)
    } else if first_attachment_error(files, c) is Some {
        first_attachment_error(files, c)
    } else if !s.memorials.contains_key(id) {
        Some(Error::MemorialNotFound)
    } else if !s.memorials[id].is_public && s.memorials[id].creator != who {
        Some(Error::AccessDenied)
    } else if cost == 0 || karma_of(k, who) < cost {
        Some(Error::NoPermission)
    } else {
        None
    }
}

/// `s` after `who` held `ceremony` in memorial `id`, spending `cost`.
pub open spec fn after_ceremony(
    s: CommemorateState,
    who: AccountId,
    id: u32,
    ceremony: CeremonyType,
    cost: KarmaBalance,
    message: Seq<u8>,
    files: Seq<IpfsFileView>,
    now: Moment,
) -> CommemorateState {
    let index = record_count_of(s, id);
    let m = s.memorials[id];
    CommemorateState {
        ceremony_records: s.ceremony_records.insert(
            (id, index),
            CeremonyRecordView {
                participant: who,
                ceremony_type: ceremony,
                karma_cost: cost,
                message,
                timestamp: now,
                attached_files: files,
            },
        ),
        record_counts: s.record_counts.insert(id, (index + 1) as u32),
        memorials: s.memorials.insert(
            id,
            MemorialView { total_ceremonies: (m.total_ceremonies + 1) as u32, ..m },
        ),
        events: s.events.push(EventView::CeremonyPerformed(id, who, ceremony, cost)) + if files.len()
            > 0 {
            seq![EventView::CeremonyMediaAdded(id, who, files.len() as u32)]
        } else {
            Seq::empty()
        },
        ..s
    }
}

/// The commemoration pallet: its constants and its storage.
pub struct Pallet {
    config: Config,
    memorials: KeyMap<u32, MemorialInfo>,
    next_memorial_id: u32,
    account_memorials: KeyMap<AccountId, Vec<u32>>,
    ceremony_records: KeyMap<(u32, u32), CeremonyRecord>,
    memorial_record_count: KeyMap<u32, u32>,
    events: Vec<Event>,
}

impl View for Pallet {
    type V = CommemorateState;

    closed spec fn view(&self) -> CommemorateState {
        CommemorateState {
            memorials: self.memorials@.map_values(|m: MemorialInfo| m@),
            next_memorial_id: self.next_memorial_id,
            account_memorials: self.account_memorials@.map_values(|v: Vec<u32>| v@),
            ceremony_records: self.ceremony_records@.map_values(|r: CeremonyRecord| r@),
            record_counts: self.memorial_record_count@,
            events: self.events@.map_values(|e: Event| e@),
        }
    }
}

impl Pallet {
    /// The storage is well formed.
    pub closed spec fn wf(&self) -> bool {
        &&& self.memorials.wf()
        &&& self.account_memorials.wf()
        &&& self.ceremony_records.wf()
        &&& self.memorial_record_count.wf()
        &&& forall|a: AccountId|
            #[trigger] self.account_memorials@.contains_key(a) ==> self.account_memorials@[a]@.len()
                <= self.config.max_memorials_per_account
    }

    /// In every well-formed pallet, as every call leaves it, no account holds
    /// more memorials than an account may.
    pub proof fn lemma_memorials_per_account_bounded(&self)
        requires
            self.wf(),
        ensures
            lists_bounded(self@, self.config()),
    {
        assert forall|a: AccountId| #[trigger] self@.account_memorials.contains_key(a) implies self@.account_memorials[a].len()
            <= self.config().max_memorials_per_account by {
            assert(self.account_memorials@.contains_key(a));
        }
    }

    /// The constants of the pallet.
    pub closed spec fn config(&self) -> Config {
        self.config
    }

    /// A pallet with empty storage.
    pub fn new(config: Config) -> (p: Pallet)
        ensures
            p.wf(),
            p.config() == config,
            p@.memorials == Map::<u32, MemorialView>::empty(),
            p@.next_memorial_id == 0,
            p@.account_memorials == Map::<AccountId, Seq<u32>>::empty(),
            p@.ceremony_records == Map::<(u32, u32), CeremonyRecordView>::empty(),
            p@.record_counts == Map::<u32, u32>::empty(),
            p@.events == Seq::<EventView>::empty(),
            records_below_count(p@),
            lists_bounded(p@, config),
    {
        let p = Pallet {
            config,
            memorials: KeyMap::new(),
            next_memorial_id: 0,
            account_memorials: KeyMap::new(),
            ceremony_records: KeyMap::new(),
            memorial_record_count: KeyMap::new(),
            events: Vec::new(),
        };
        assert(p@.memorials =~= Map::<u32, MemorialView>::empty());
        assert(p@.account_memorials =~= Map::<AccountId, Seq<u32>>::empty());
        assert(p@.ceremony_records =~= Map::<(u32, u32), CeremonyRecordView>::empty());
        assert(p@.events =~= Seq::<EventView>::empty());
        p
    }

    /// The events deposited so far, oldest first.
    pub fn events(&self) -> (r: &Vec<Event>)
        ensures
            r@.map_values(|e: Event| e@) == self@.events,
    {
        &self.events
    }

    /// Identifier of the next memorial.
    pub fn next_memorial_id(&self) -> (r: u32)
        ensures
            r == self@.next_memorial_id,
    {
        self.next_memorial_id
    }

    /// Number of ceremony records of memorial `memorial_id`.
    pub fn memorial_record_count(&self, memorial_id: u32) -> (r: u32)
        requires
            self.wf(),
        ensures
            r == record_count_of(self@, memorial_id),
    {
        self.memorial_record_count.get_or(&memorial_id, 0)
    }

    /// Memorial `memorial_id`, if it exists.
    pub fn memorial(&self, memorial_id: u32) -> (r: Option<&MemorialInfo>)
        requires
            self.wf(),
        ensures
            match r {
                Some(m) => self@.memorials.contains_key(memorial_id) && m@
                    == self@.memorials[memorial_id],
                None => !self@.memorials.contains_key(memorial_id),
            },
    {
        self.memorials.get(&memorial_id)
    }

    /// The memorials opened by `account`, in order.
    pub fn get_account_memorials(&self, account: &AccountId) -> (r: Vec<u32>)
        requires
            self.wf(),
        ensures
            r@ == memorials_of(self@, *account),
    {
        match self.account_memorials.get(account) {
            Some(v) => {
                let c = v.clone();
                assert(c@ =~= v@);
                c
            },
            None => Vec::new(),
        }
    }

    /// The ceremony records of memorial `memorial_id` with an index below its
    /// record count, in order of index.
    pub fn get_memorial_records(&self, memorial_id: u32) -> (r: Vec<CeremonyRecord>)
        requires
            self.wf(),
        ensures
            r@.map_values(|c: CeremonyRecord| c@) == records_below(
                self@.ceremony_records,
                memorial_id,
                record_count_of(self@, memorial_id),
            ),
    {
        let count = self.memorial_record_count.get_or(&memorial_id, 0);
        let mut out: Vec<CeremonyRecord> = Vec::new();
        let mut i: u32 = 0;
        while i < count
            invariant
                self.wf(),
                i <= count,
                count == record_count_of(self@, memorial_id),
                out@.map_values(|c: CeremonyRecord| c@) == records_below(
                    self@.ceremony_records,
                    memorial_id,
                    i,
                ),
            decreases count - i,
        {
            let ghost before = out@;
            match self.ceremony_records.get(&(memorial_id, i)) {
                Some(rec) => {
                    assert(self@.ceremony_records.contains_key((memorial_id, i)));
                    out.push(rec.copy());
                    assert(out@.map_values(|c: CeremonyRecord| c@) =~= before.map_values(
                        |c: CeremonyRecord| c@,
                    ).push(self@.ceremony_records[(memorial_id, i)]));
                },
                None => {
                    assert(!self@.ceremony_records.contains_key((memorial_id, i)));
                },
            }
            i = i + 1;
        }
        out
    }
}

/// The records of memorial `id` with index below `count`, in order of index.
pub open spec fn records_below(
    records: Map<(u32, u32), CeremonyRecordView>,
    id: u32,
    count: u32,
) -> Seq<CeremonyRecordView>
    decreases count,
{
    if count == 0 {
        Seq::empty()
    } else {
        let i = (count - 1) as u32;
        records_below(records, id, i) + if records.contains_key((id, i)) {
            seq![records[(id, i)]]
        } else {
            Seq::empty()
        }
    }
}

impl Pallet {
    /// The signer opens a memorial at time `now` (block `block`), spending
    /// the configured karma; its identifier is the next memorial identifier.
    pub fn create_memorial(
        &mut self,
        karma: &mut karma::Pallet,
        origin: Origin,
        name: Vec<u8>,
        birth_date: Option<Vec<u8>>,
        death_date: Option<Vec<u8>>,
        description: Vec<u8>,
        is_public: bool,
        avatar_ipfs: Option<Vec<u8>>,
        now: Moment,
        block: BlockNumber,
    ) -> (r: Result<(), Error>)
        requires
            old(self).wf(),
            old(karma).wf(),
            signer(origin) matches Some(who) ==> create_error(
                old(self)@,
                old(self).config(),
                old(karma)@,
                who,
                name@,
                description@,
                opt_bytes(avatar_ipfs),
            ) is None ==> old(self)@.next_memorial_id < u32::MAX,
        ensures
            final(self).wf(),
            final(karma).wf(),
            final(self).config() == old(self).config(),
            final(karma).config() == old(karma).config(),
            lists_bounded(final(self)@, final(self).config()),
            signer(origin) is None ==> r == Err::<(), Error>(Error::BadOrigin) && final(self)@ == old(
                self)@ && final(karma)@ == old(karma)@,
            signer(origin) matches Some(who) ==> create_error(
                old(self)@,
                old(self).config(),
                old(karma)@,
                who,
                name@,
                description@,
                opt_bytes(avatar_ipfs),
            ) matches Some(e) ==> r == Err::<(), Error>(e) && final(self)@ == old(self)@ && final(
                karma)@ == old(karma)@,
            signer(origin) matches Some(who) ==> create_error(
                old(self)@,
                old(self).config(),
                old(karma)@,
                who,
                name@,
                description@,
                opt_bytes(avatar_ipfs),
            ) is None ==> {
                let s = old(self)@;
                let id = s.next_memorial_id;
                &&& r is Ok
                &&& exists|d: Vec<u8>|
                    d@ == create_memorial_description() && final(karma)@ == consumed(
                        old(karma)@,
                        old(karma).thresholds(),
                        who,
                        old(self).config().create_memorial_cost,
                        MeritAction::SocialInteraction,
                        d,
                        block,
                    )
                &&& final(self)@ == (CommemorateState {
                    memorials: s.memorials.insert(
                        id,
                        MemorialView {
                            creator: who,
                            name: name@,
                            birth_date: opt_bytes(birth_date),
                            death_date: opt_bytes(death_date),
                            description: description@,
                            created_at: now,
                            total_visits: 0,
                            total_ceremonies: 0,
                            is_public,
                            avatar_ipfs: opt_bytes(avatar_ipfs),
                            gallery_files: Seq::empty(),
                        },
                    ),
                    next_memorial_id: (id + 1) as u32,
                    account_memorials: s.account_memorials.insert(who, memorials_of(s, who).push(id)),
                    events: s.events.push(EventView::MemorialCreated(who, id, name@)),
                    ..s
                })
            },
    {
        let who = match ensure_signed(origin) {
            Some(w) => w,
            None => return Err(Error::BadOrigin),
        };
        if name.len() > self.config.max_name_length as usize {
            return Err(Error::NameTooLong);
        }
        if description.len() > self.config.max_description_length as usize {
            return Err(Error::DescriptionTooLong);
        }
        match &avatar_ipfs {
            Some(hash) => {
                if hash.len() > self.config.max_ipfs_hash_length as usize {
                    return Err(Error::IpfsHashTooLong);
                }
            },
            None => {},
        }
        let held = match self.account_memorials.get(&who) {
            Some(v) => v.len(),
            None => 0,
        };
        if held >= self.config.max_memorials_per_account as usize {
            return Err(Error::TooManyMemorials);
        }
        let cost = self.config.create_memorial_cost;
        let desc = create_memorial_description_bytes();
        let ghost d = desc;
        match karma.do_consume_karma_for_merit(&who, cost, MeritAction::SocialInteraction, desc, block) {
            Ok(()) => {},
            Err(_) => return Err(Error::NoPermission),
        }
        let memorial_id = self.next_memorial_id;
        let event_name = copy_bytes(&name);
        let info = MemorialInfo {
            creator: who,
            name,
            birth_date,
            death_date,
            description,
            created_at: now,
            total_visits: 0,
            total_ceremonies: 0,
            is_public,
            avatar_ipfs,
            gallery_files: Vec::new(),
        };
        let ghost info_view = info@;
        let ghost old_memorials = self.memorials@;
        self.memorials.insert(memorial_id, info);
        assert(self.memorials@.map_values(|m: MemorialInfo| m@) =~= old_memorials.map_values(
            |m: MemorialInfo| m@,
        ).insert(memorial_id, info_view));
        self.next_memorial_id = memorial_id + 1;
        let ghost old_lists = self.account_memorials@;
        let mut list = match self.account_memorials.remove(&who) {
            Some(v) => v,
            None => Vec::new(),
        };
        assert(list@ == memorials_of(old(self)@, who));
        list.push(memorial_id);
        let ghost list_view = list@;
        self.account_memorials.insert(who, list);
        assert(self.account_memorials@.map_values(|v: Vec<u32>| v@) =~= old_lists.map_values(
            |v: Vec<u32>| v@,
        ).insert(who, list_view));
        let ghost old_events = self.events@;
        let ev = Event::MemorialCreated(who, memorial_id, event_name);
        let ghost ev_view = ev@;
        self.events.push(ev);
        assert(self.events@.map_values(|e: Event| e@) =~= old_events.map_values(|e: Event| e@).push(
            ev_view,
        ));
        assert(info_view.gallery_files =~= Seq::<IpfsFileView>::empty());
        Ok(())
    }

    /// The creator of memorial `memorial_id` adds `files` to its gallery.
    pub fn add_memorial_media(&mut self, origin: Origin, memorial_id: u32, files: Vec<IpfsFile>) -> (r:
        Result<(), Error>)
        requires
            old(self).wf(),
            old(self)@.memorials.contains_key(memorial_id) ==> old(self)@.memorials[memorial_id].gallery_files.len()
                + files@.len() <= usize::MAX,
        ensures
            final(self).wf(),
            final(self).config() == old(self).config(),
            r is Ok ==> old(self)@.memorials[memorial_id].gallery_files.len() + files@.len()
                <= old(self).config().max_files_per_memorial,
            r is Ok ==> final(self)@.memorials[memorial_id].gallery_files.len()
                == old(self)@.memorials[memorial_id].gallery_files.len() + files@.len(),
            signer(origin) is None ==> r == Err::<(), Error>(Error::BadOrigin) && final(self)@ == old(
                self)@,
            signer(origin) is Some && !old(self)@.memorials.contains_key(memorial_id) ==> r == Err::<
                (),
                Error,
            >(Error::MemorialNotFound) && final(self)@ == old(self)@,
            signer(origin) matches Some(who) ==> old(self)@.memorials.contains_key(memorial_id)
                ==> media_outcome(
                old(self)@,
                old(self).config(),
                who,
                memorial_id,
                files_view(files@),
                r,
                final(self)@,
            ),
    {
        let who = match ensure_signed(origin) {
            Some(w) => w,
            None => return Err(Error::BadOrigin),
        };
        let (creator, gallery_len) = match self.memorials.get(&memorial_id) {
            Some(m) => (m.creator, m.gallery_files.len()),
            None => return Err(Error::MemorialNotFound),
        };
        if !creator.key_eq(&who) {
            return Err(Error::NoPermission);
        }
        let ghost fv = files_view(files@);
        assert(fv.skip(0) =~= fv);
        let mut i: usize = 0;
        while i < files.len()
            invariant
                self.wf(),
                self@ == old(self)@,
                self.config == old(self).config,
                signer(origin) == Some(who),
                old(self)@.memorials.contains_key(memorial_id),
                old(self)@.memorials[memorial_id].creator == who,
                i <= files@.len(),
                fv == files_view(files@),
                first_media_error(fv, self.config) == first_media_error(fv.skip(i as int), self.config),
            decreases files@.len() - i,
        {
            assert(fv.skip(i as int)[0] == files@[i as int]@);
            assert(fv.skip(i as int).drop_first() =~= fv.skip(i + 1));
            if files[i].hash.len() > self.config.max_ipfs_hash_length as usize {
                return Err(Error::IpfsHashTooLong);
            }
            if files[i].name.len() > self.config.max_file_name_length as usize {
                return Err(Error::FileNameTooLong);
            }
            if files[i].file_type.len() > 20 {
                return Err(Error::InvalidFileType);
            }
            i = i + 1;
        }
        assert(fv.skip(i as int) =~= Seq::<IpfsFileView>::empty());
        if gallery_len + files.len() > self.config.max_files_per_memorial as usize {
            return Err(Error::TooManyFiles);
        }
        let ghost old_memorials = self.memorials@;
        let ghost old_events = self.events@;
        let mut memorial = match self.memorials.remove(&memorial_id) {
            Some(m) => m,
            None => return Err(Error::MemorialNotFound),
        };
        let ghost m0 = memorial@;
        let ghost before_loop = self@;
        let mut j: usize = 0;
        while j < files.len()
            invariant
                self.wf(),
                self.config == old(self).config,
                self.memorials@ == old_memorials.remove(memorial_id),
                self.next_memorial_id == before_loop.next_memorial_id,
                self.account_memorials@ == old(self).account_memorials@,
                self.ceremony_records@ == old(self).ceremony_records@,
                self.memorial_record_count@ == old(self).memorial_record_count@,
                j <= files@.len(),
                fv == files_view(files@),
                memorial@ == (MemorialView {
                    gallery_files: m0.gallery_files + fv.subrange(0, j as int),
                    ..m0
                }),
                self.events@.map_values(|e: Event| e@) == old_events.map_values(|e: Event| e@)
                    + media_events(memorial_id, fv.subrange(0, j as int)),
            decreases files@.len() - j,
        {
            let ghost g0 = memorial.gallery_files@;
            let ghost e0 = self.events@;
            let c = files[j].copy();
            memorial.gallery_files.push(c);
            assert(files_view(memorial.gallery_files@) =~= files_view(g0).push(files@[j as int]@));
            let ev = Event::IpfsFileUploaded(
                memorial_id,
                copy_bytes(&files[j].hash),
                copy_bytes(&files[j].file_type),
            );
            let ghost ev_view = ev@;
            self.events.push(ev);
            assert(self.events@.map_values(|e: Event| e@) =~= e0.map_values(|e: Event| e@).push(
                ev_view,
            ));
            assert(fv.subrange(0, j + 1) =~= fv.subrange(0, j as int).push(fv[j as int]));
            assert(media_events(memorial_id, fv.subrange(0, j + 1)) =~= media_events(
                memorial_id,
                fv.subrange(0, j as int),
            ).push(ev_view));
            assert(memorial@.gallery_files =~= m0.gallery_files + fv.subrange(0, j + 1));
            j = j + 1;
        }
        assert(fv.subrange(0, j as int) =~= fv);
        let ghost m_view = memorial@;
        self.memorials.insert(memorial_id, memorial);
        assert(self.memorials@.map_values(|m: MemorialInfo| m@) =~= old_memorials.map_values(
            |m: MemorialInfo| m@,
        ).insert(memorial_id, m_view));
        Ok(())
    }
}

/// What the creator-side checks and the update of adding `files` to
/// memorial `id` (which exists) do, from `s` to `f`.
pub open spec fn media_outcome(
    s: CommemorateState,
    c: Config,
    who: AccountId,
    id: u32,
    files: Seq<IpfsFileView>,
    r: Result<(), Error>,
    f: CommemorateState,
) -> bool {
    let m = s.memorials[id];
    if m.creator != who {
        r == Err::<(), Error>(Error::NoPermission) && f == s
    } else if first_media_error(files, c) is Some {
        r == Err::<(), Error>(first_media_error(files, c)->0) && f == s
    } else if m.gallery_files.len() + files.len() > c.max_files_per_memorial {
        r == Err::<(), Error>(Error::TooManyFiles) && f == s
    } else {
        &&& r is Ok
        &&& f == (CommemorateState {
            memorials: s.memorials.insert(
                id,
                MemorialView { gallery_files: m.gallery_files + files, ..m },
            ),
            events: s.events + media_events(id, files),
            ..s
        })
    }
}

/// Neither ceremony counter of memorial `id` is full.
pub open spec fn ceremony_counters_below_max(s: CommemorateState, id: u32) -> bool {
    &&& record_count_of(s, id) < u32::MAX
    &&& s.memorials.contains_key(id) ==> s.memorials[id].total_ceremonies < u32::MAX
}

/// Karma spent on a ceremony: `amount`, or `base` when it is `None`.
pub open spec fn ceremony_cost(amount: Option<KarmaBalance>, base: KarmaBalance) -> KarmaBalance {
    match amount {
        Some(a) => a,
        None => base,
    }
}

/// What holding `ceremony` in memorial `id` does to both pallets, from
/// (`s`, `k`) to (`f`, `fk`): refused with its error and no change, or done.
pub open spec fn ceremony_outcome(
    s: CommemorateState,
    c: Config,
    k: karma::KarmaState,
    thresholds: Seq<KarmaBalance>,
    who: AccountId,
    id: u32,
    ceremony: CeremonyType,
    message: Seq<u8>,
    files: Seq<IpfsFileView>,
    cost: KarmaBalance,
    now: Moment,
    block: BlockNumber,
    r: Result<(), Error>,
    f: CommemorateState,
    fk: karma::KarmaState,
) -> bool {
    if ceremony_error(s, c, k, who, id, message, files, cost) is Some {
        r == Err::<(), Error>(ceremony_error(s, c, k, who, id, message, files, cost)->0) && f == s
            && fk == k
    } else {
        &&& r is Ok
        &&& exists|d: Vec<u8>|
            d@ == ceremony_description(ceremony) && fk == consumed(
                k,
                thresholds,
                who,
                cost,
                MeritAction::SocialInteraction,
                d,
                block,
            )
        &&& f == after_ceremony(s, who, id, ceremony, cost, message, files, now)
    }
}

impl Pallet {
    /// The signer holds a traditional rite in memorial `memorial_id` at time
    /// `now` (block `block`), spending `karma_amount`, or the base cost of a
    /// traditional rite when it is `None`.
    pub fn perform_traditional_ceremony(
        &mut self,
        karma: &mut karma::Pallet,
        origin: Origin,
        memorial_id: u32,
        ceremony: TraditionalCeremony,
        message: Vec<u8>,
        karma_amount: Option<KarmaBalance>,
        attached_files: Vec<IpfsFile>,
        now: Moment,
        block: BlockNumber,
    ) -> (r: Result<(), Error>)
        requires
            old(self).wf(),
            old(karma).wf(),
            signer(origin) matches Some(who) ==> ceremony_error(
                old(self)@,
                old(self).config(),
                old(karma)@,
                who,
                memorial_id,
                message@,
                files_view(attached_files@),
                ceremony_cost(karma_amount, old(self).config().base_traditional_cost),
            ) is None ==> ceremony_counters_below_max(old(self)@, memorial_id),
        ensures
            final(self).wf(),
            final(karma).wf(),
            final(self).config() == old(self).config(),
            final(karma).config() == old(karma).config(),
            signer(origin) is None ==> r == Err::<(), Error>(Error::BadOrigin) && final(self)@ == old(
                self)@ && final(karma)@ == old(karma)@,
            signer(origin) matches Some(who) ==> ceremony_outcome(
                old(self)@,
                old(self).config(),
                old(karma)@,
                old(karma).thresholds(),
                who,
                memorial_id,
                CeremonyType::Traditional(ceremony),
                message@,
                files_view(attached_files@),
                ceremony_cost(karma_amount, old(self).config().base_traditional_cost),
                now,
                block,
                r,
                final(self)@,
                final(karma)@,
            ),
    {
        let who = match ensure_signed(origin) {
            Some(w) => w,
            None => return Err(Error::BadOrigin),
        };
        let base = self.config.base_traditional_cost;
        self.perform_ceremony(
            karma,
            who,
            memorial_id,
            CeremonyType::Traditional(ceremony),
            message,
            karma_amount,
            base,
            attached_files,
            now,
            block,
        )
    }

    /// The signer holds a modern act of remembrance in memorial
    /// `memorial_id` at time `now` (block `block`), spending `karma_amount`,
    /// or the base cost of a modern act when it is `None`.
    pub fn perform_modern_ceremony(
        &mut self,
        karma: &mut karma::Pallet,
        origin: Origin,
        memorial_id: u32,
        ceremony: ModernCeremony,
        message: Vec<u8>,
        karma_amount: Option<KarmaBalance>,
        attached_files: Vec<IpfsFile>,
        now: Moment,
        block: BlockNumber,
    ) -> (r: Result<(), Error>)
        requires
            old(self).wf(),
            old(karma).wf(),
            signer(origin) matches Some(who) ==> ceremony_error(
                old(self)@,
                old(self).config(),
                old(karma)@,
                who,
                memorial_id,
                message@,
                files_view(attached_files@),
                ceremony_cost(karma_amount, old(self).config().base_modern_cost),
            ) is None ==> ceremony_counters_below_max(old(self)@, memorial_id),
        ensures
            final(self).wf(),
            final(karma).wf(),
            final(self).config() == old(self).config(),
            final(karma).config() == old(karma).config(),
            signer(origin) is None ==> r == Err::<(), Error>(Error::BadOrigin) && final(self)@ == old(
                self)@ && final(karma)@ == old(karma)@,
            signer(origin) matches Some(who) ==> ceremony_outcome(
                old(self)@,
                old(self).config(),
                old(karma)@,
                old(karma).thresholds(),
                who,
                memorial_id,
                CeremonyType::Modern(ceremony),
                message@,
                files_view(attached_files@),
                ceremony_cost(karma_amount, old(self).config().base_modern_cost),
                now,
                block,
                r,
                final(self)@,
                final(karma)@,
            ),
    {
        let who = match ensure_signed(origin) {
            Some(w) => w,
            None => return Err(Error::BadOrigin),
        };
        let base = self.config.base_modern_cost;
        self.perform_ceremony(
            karma,
            who,
            memorial_id,
            CeremonyType::Modern(ceremony),
            message,
            karma_amount,
            base,
            attached_files,
            now,
            block,
        )
    }

    fn perform_ceremony(
        &mut self,
        karma: &mut karma::Pallet,
        who: AccountId,
        memorial_id: u32,
        ceremony: CeremonyType,
        message: Vec<u8>,
        karma_amount: Option<KarmaBalance>,
        base_cost: KarmaBalance,
        attached_files: Vec<IpfsFile>,
        now: Moment,
        block: BlockNumber,
    ) -> (r: Result<(), Error>)
        requires
            old(self).wf(),
            old(karma).wf(),
            ceremony_error(
                old(self)@,
                old(self).config(),
                old(karma)@,
                who,
                memorial_id,
                message@,
                files_view(attached_files@),
                ceremony_cost(karma_amount, base_cost),
            ) is None ==> ceremony_counters_below_max(old(self)@, memorial_id),
        ensures
            final(self).wf(),
            final(karma).wf(),
            final(self).config() == old(self).config(),
            final(karma).config() == old(karma).config(),
            ceremony_outcome(
                old(self)@,
                old(self).config(),
                old(karma)@,
                old(karma).thresholds(),
                who,
                memorial_id,
                ceremony,
                message@,
                files_view(attached_files@),
                ceremony_cost(karma_amount, base_cost),
                now,
                block,
                r,
                final(self)@,
                final(karma)@,
            ),
    {
        if message.len() > self.config.max_message_length as usize {
            return Err(Error::MessageTooLong);
        }
        if attached_files.len() > self.config.max_files_per_ceremony as usize {
            return Err(Error::TooManyFiles);
        }
        let ghost fv = files_view(attached_files@);
        assert(fv.skip(0) =~= fv);
        let mut i: usize = 0;
        while i < attached_files.len()
            invariant
                self.wf(),
                self@ == old(self)@,
                self.config == old(self).config,
                karma.wf(),
                karma@ == old(karma)@,
                karma.config() == old(karma).config(),
                message@.len() <= self.config.max_message_length,
                attached_files@.len() <= self.config.max_files_per_ceremony,
                i <= attached_files@.len(),
                fv == files_view(attached_files@),
                first_attachment_error(fv, self.config) == first_attachment_error(
                    fv.skip(i as int),
                    self.config,
                ),
            decreases attached_files@.len() - i,
        {
            assert(fv.skip(i as int)[0] == attached_files@[i as int]@);
            assert(fv.skip(i as int).drop_first() =~= fv.skip(i + 1));
            if attached_files[i].hash.len() > self.config.max_ipfs_hash_length as usize {
                return Err(Error::IpfsHashTooLong);
            }
            if attached_files[i].name.len() > self.config.max_file_name_length as usize {
                return Err(Error::FileNameTooLong);
            }
            i = i + 1;
        }
        assert(fv.skip(i as int) =~= Seq::<IpfsFileView>::empty());
        let (is_public, creator) = match self.memorials.get(&memorial_id) {
            Some(m) => (m.is_public, m.creator),
            None => return Err(Error::MemorialNotFound),
        };
        if !is_public && !creator.key_eq(&who) {
            return Err(Error::AccessDenied);
        }
        let karma_cost = match karma_amount {
            Some(a) => a,
            None => base_cost,
        };
        let desc = ceremony_description_bytes(ceremony);
        let ghost d = desc;
        match karma.do_consume_karma_for_merit(
            &who,
            karma_cost,
            MeritAction::SocialInteraction,
            desc,
            block,
        ) {
            Ok(()) => {},
            Err(_) => return Err(Error::NoPermission),
        }
        let record_index = self.memorial_record_count.get_or(&memorial_id, 0);
        let n_files = attached_files.len();
        let record = CeremonyRecord {
            participant: who,
            ceremony_type: ceremony,
            karma_cost,
            message,
            timestamp: now,
            attached_files,
        };
        let ghost record_view = record@;
        let ghost old_records = self.ceremony_records@;
        self.ceremony_records.insert((memorial_id, record_index), record);
        assert(self.ceremony_records@.map_values(|c: CeremonyRecord| c@) =~= old_records.map_values(
            |c: CeremonyRecord| c@,
        ).insert((memorial_id, record_index), record_view));
        self.memorial_record_count.insert(memorial_id, record_index + 1);

        let ghost old_memorials = self.memorials@;
        let mut memorial = match self.memorials.remove(&memorial_id) {
            Some(m) => m,
            None => return Err(Error::MemorialNotFound),
        };
        memorial.total_ceremonies = memorial.total_ceremonies + 1;
        let ghost m_view = memorial@;
        self.memorials.insert(memorial_id, memorial);
        assert(self.memorials@.map_values(|m: MemorialInfo| m@) =~= old_memorials.map_values(
            |m: MemorialInfo| m@,
        ).insert(memorial_id, m_view));

        let ghost old_events = self.events@;
        let performed = Event::CeremonyPerformed(memorial_id, who, ceremony, karma_cost);
        let ghost performed_view = performed@;
        self.events.push(performed);
        if n_files > 0 {
            let media = Event::CeremonyMediaAdded(memorial_id, who, n_files as u32);
            let ghost media_view = media@;
            self.events.push(media);
            assert(self.events@.map_values(|e: Event| e@) =~= old_events.map_values(|e: Event| e@).push(
                performed_view,
            ).push(media_view));
        } else {
            assert(self.events@.map_values(|e: Event| e@) =~= old_events.map_values(|e: Event| e@).push(
                performed_view,
            ));
        }
        proof {
            let expected = after_ceremony(
                old(self)@,
                who,
                memorial_id,
                ceremony,
                karma_cost,
                record_view.message,
                fv,
                now,
            );
            assert(self@.ceremony_records == expected.ceremony_records);
            assert(self@.record_counts == expected.record_counts);
            assert(self@.memorials == expected.memorials);
            assert(self@.events == expected.events);
            assert(d@ == ceremony_description(ceremony));
        }
        Ok(())
    }
}

} // verus!

verus! {

/// A private memorial refuses the ceremonies of everyone but its creator
/// (once the message and the attachments pass their checks).
pub proof fn lemma_private_memorial_admits_only_creator(
    s: CommemorateState,
    c: Config,
    k: karma::KarmaState,
    who: AccountId,
    id: u32,
    message: Seq<u8>,
    files: Seq<IpfsFileView>,
    cost: KarmaBalance,
)
    requires
        message.len() <= c.max_message_length,
        files.len() <= c.max_files_per_ceremony,
        first_attachment_error(files, c) is None,
        s.memorials.contains_key(id),
        !s.memorials[id].is_public,
        s.memorials[id].creator != who,
    ensures
        ceremony_error(s, c, k, who, id, message, files, cost) == Some(Error::AccessDenied),
{
}

/// A ceremony adds one record under the memorial's next index, and counts
/// it both in the record count and in the memorial's ceremonies.
pub proof fn lemma_ceremony_is_counted(
    s: CommemorateState,
    who: AccountId,
    id: u32,
    ceremony: CeremonyType,
    cost: KarmaBalance,
    message: Seq<u8>,
    files: Seq<IpfsFileView>,
    now: Moment,
)
    requires
        s.memorials.contains_key(id),
        record_count_of(s, id) < u32::MAX,
        s.memorials[id].total_ceremonies < u32::MAX,
    ensures
        ({
            let f = after_ceremony(s, who, id, ceremony, cost, message, files, now);
            &&& record_count_of(f, id) == record_count_of(s, id) + 1
            &&& f.ceremony_records.contains_key((id, record_count_of(s, id)))
            &&& f.ceremony_records[(id, record_count_of(s, id))].participant == who
            &&& f.memorials[id].total_ceremonies == s.memorials[id].total_ceremonies + 1
        }),
{
}

/// Every ceremony record of a memorial has an index below the memorial's
/// record count (as in an empty pallet).
pub open spec fn records_below_count(s: CommemorateState) -> bool {
    forall|id: u32, i: u32|
        #[trigger] s.ceremony_records.contains_key((id, i)) ==> i < record_count_of(s, id)
}

/// Ceremony records are kept for good: a ceremony writes its record under a
/// fresh index, every earlier record stays as it was, and every index stays
/// below its memorial's record count.
pub proof fn lemma_ceremony_records_are_kept(
    s: CommemorateState,
    who: AccountId,
    id: u32,
    ceremony: CeremonyType,
    cost: KarmaBalance,
    message: Seq<u8>,
    files: Seq<IpfsFileView>,
    now: Moment,
)
    requires
        records_below_count(s),
        s.memorials.contains_key(id),
        record_count_of(s, id) < u32::MAX,
    ensures
        ({
            let f = after_ceremony(s, who, id, ceremony, cost, message, files, now);
            &&& !s.ceremony_records.contains_key((id, record_count_of(s, id)))
            &&& forall|m: u32, i: u32| #[trigger] s.ceremony_records.contains_key((m, i))
                ==> f.ceremony_records.contains_key((m, i)) && f.ceremony_records[(m, i)]
                == s.ceremony_records[(m, i)]
            &&& records_below_count(f)
        }),
{
    let f = after_ceremony(s, who, id, ceremony, cost, message, files, now);
    let index = record_count_of(s, id);
    assert forall|m: u32, i: u32| #[trigger] f.ceremony_records.contains_key((m, i)) implies i
        < record_count_of(f, m) by {
        if m == id {
            if i != index {
                assert(s.ceremony_records.contains_key((m, i)));
            }
        } else {
            assert(s.ceremony_records.contains_key((m, i)));
        }
    }
}

/// Every gallery holds at most `max_files_per_memorial` files.
pub open spec fn galleries_bounded(s: CommemorateState, c: Config) -> bool {
    forall|id: u32|
        #[trigger] s.memorials.contains_key(id) ==> s.memorials[id].gallery_files.len()
            <= c.max_files_per_memorial
}

/// Adding media never takes a gallery past its limit: media are accepted
/// only when the gallery and the new files together fit, the gallery then
/// grows by exactly the new files, and a pallet whose galleries all fit
/// keeps them fitting, whatever the outcome.
pub proof fn lemma_gallery_stays_within_limit(
    s: CommemorateState,
    c: Config,
    who: AccountId,
    id: u32,
    files: Seq<IpfsFileView>,
    r: Result<(), Error>,
    f: CommemorateState,
)
    requires
        s.memorials.contains_key(id),
        media_outcome(s, c, who, id, files, r, f),
    ensures
        r is Ok ==> s.memorials[id].gallery_files.len() + files.len() <= c.max_files_per_memorial,
        r is Ok ==> f.memorials[id].gallery_files.len() == s.memorials[id].gallery_files.len()
            + files.len(),
        r is Ok ==> f.memorials[id].creator == who,
        galleries_bounded(s, c) ==> galleries_bounded(f, c),
{
    if r is Ok {
        assert(f.memorials[id].gallery_files =~= s.memorials[id].gallery_files + files);
    }
    if galleries_bounded(s, c) && r is Ok {
        assert forall|k: u32| #[trigger] f.memorials.contains_key(k) implies f.memorials[k].gallery_files.len()
            <= c.max_files_per_memorial by {
            if k != id {
                assert(s.memorials.contains_key(k));
            }
        }
    }
}

/// A ceremony costs exactly the karma its participant names, and the base
/// cost only when none is named.
pub proof fn lemma_ceremony_costs_what_is_named(amount: Option<KarmaBalance>, base: KarmaBalance)
    ensures
        amount matches Some(a) ==> ceremony_cost(amount, base) == a,
        amount is None ==> ceremony_cost(amount, base) == base,
{
}

} // verus!
