//! Share mining: accounts submit links to posts about the project; an
//! off-chain worker fetches each page and reports whether it mentions one of
//! the project's keywords; the accounts whose pages do share the pot, paid
//! out in equal parts.
use vstd::prelude::*;
use crate::primitives::{
    AccountId,
    Balance,
    BlockNumber,
    Origin,
    Transfer,
    ensure_signed,
    same_bytes,
    sat_mul,
    saturating_mul_u128,
    signer,
};
use crate::storage::MapKey;
use vstd::utf8::valid_utf8;

verus! {

/// The keywords a page must mention, UTF-8 encoded: 佛境, 冥想, 修心, 禅修.
pub open spec fn keywords() -> Seq<Seq<u8>> {
    seq![
        seq![228u8, 189, 155, 229, 162, 131],
        seq![229u8, 134, 165, 230, 131, 179],
        seq![228u8, 191, 174, 229, 191, 131],
        seq![231u8, 166, 133, 228, 191, 174],
    ]
}

/// `needle` occurs in `hay`, starting at byte `i`.
pub open spec fn occurs_at(hay: Seq<u8>, needle: Seq<u8>, i: int) -> bool {
    &&& 0 <= i
    &&& i + needle.len() <= hay.len()
    &&& hay.subrange(i, i + needle.len()) == needle
}

/// `needle` occurs somewhere in `hay`.
pub open spec fn contains_bytes(hay: Seq<u8>, needle: Seq<u8>) -> bool {
    exists|i: int| occurs_at(hay, needle, i)
}

/// The text mentions one of the keywords. On UTF-8 text this is what
/// searching the string for each keyword finds: an encoded keyword can only
/// occur in encoded text where its characters start.
pub open spec fn mentions_keyword(text: Seq<u8>) -> bool {
    exists|k: int| 0 <= k < keywords().len() && contains_bytes(text, #[trigger] keywords()[k])
}

/// Whether `needle` occurs in `hay` at `i`.
fn occurs_at_exec(hay: &[u8], needle: &[u8], i: usize) -> (r: bool)
    requires
        i + needle@.len() <= hay@.len(),
    ensures
        r == occurs_at(hay@, needle@, i as int),
{
    let n = needle.len();
    let mut j: usize = 0;
    while j < n
        invariant
            i + n <= hay.len(),
            n == needle@.len(),
            j <= n,
            forall|t: int| 0 <= t < j ==> hay@[i + t] == needle@[t],
        decreases n - j,
    {
        if hay[i + j] != needle[j] {
            assert(hay@.subrange(i as int, i + n)[j as int] != needle@[j as int]);
            return false;
        }
        j = j + 1;
    }
    assert(hay@.subrange(i as int, i + n) =~= needle@);
    true
}

/// Whether `needle` occurs anywhere in `hay`.
fn contains_bytes_exec(hay: &[u8], needle: &[u8]) -> (r: bool)
    ensures
        r == contains_bytes(hay@, needle@),
{
    if needle.len() > hay.len() {
        assert forall|i: int| !occurs_at(hay@, needle@, i) by {}
        return false;
    }
    let last = hay.len() - needle.len();
    let mut i: usize = 0;
    loop
        invariant_except_break
            last + needle@.len() == hay@.len(),
            i <= last,
            forall|t: int| 0 <= t < i ==> !occurs_at(hay@, needle@, t),
        ensures
            last + needle@.len() == hay@.len(),
            forall|t: int| 0 <= t <= last ==> !occurs_at(hay@, needle@, t),
        decreases last - i,
    {
        if occurs_at_exec(hay, needle, i) {
            assert(occurs_at(hay@, needle@, i as int));
            return true;
        }
        if i == last {
            break;
        }
        i = i + 1;
    }
    assert forall|t: int| !occurs_at(hay@, needle@, t) by {
        if 0 <= t <= last {
        }
    }
    false
}

/// Whether the text mentions one of the keywords.
pub fn mentions_keyword_exec(text: &[u8]) -> (r: bool)
    ensures
        r == mentions_keyword(text@),
{
    broadcast use vstd::array::group_array_axioms;

    let k0: [u8; 6] = [228u8, 189u8, 155u8, 229u8, 162u8, 131u8];
    let k1: [u8; 6] = [229u8, 134u8, 165u8, 230u8, 131u8, 179u8];
    let k2: [u8; 6] = [228u8, 191u8, 174u8, 229u8, 191u8, 131u8];
    let k3: [u8; 6] = [231u8, 166u8, 133u8, 228u8, 191u8, 174u8];
    assert(k0@ =~= keywords()[0]);
    assert(k1@ =~= keywords()[1]);
    assert(k2@ =~= keywords()[2]);
    assert(k3@ =~= keywords()[3]);
    let r = contains_bytes_exec(text, k0.as_slice()) || contains_bytes_exec(text, k1.as_slice())
        || contains_bytes_exec(text, k2.as_slice()) || contains_bytes_exec(text, k3.as_slice());
    proof {
        if mentions_keyword(text@) {
            let k = choose|k: int| 0 <= k < keywords().len() && contains_bytes(text@, #[trigger] keywords()[k]);
            assert(k == 0 || k == 1 || k == 2 || k == 3);
        }
    }
    r
}

/// `std::str::from_utf8`: whether it accepts the bytes, that is, whether
/// they are valid UTF-8.
#[verifier::external_body]
fn utf8_accepts(bytes: &[u8]) -> (r: bool)
    ensures
        r == valid_utf8(bytes@),
{
    std::str::from_utf8(bytes).is_ok()
}

/// What the off-chain check reports of a fetched page: nothing when the page
/// is not UTF-8 text, and otherwise whether it mentions a keyword.
pub fn verification_outcome(body: &[u8]) -> (r: Option<bool>)
    ensures
        r == (if valid_utf8(body@) {
            Some(mentions_keyword(body@))
        } else {
            None
        }),
{
    if utf8_accepts(body) {
        Some(mentions_keyword_exec(body))
    } else {
        None
    }
}

/// Constants of the share-mining pallet.
#[derive(Clone, Copy, Debug)]
pub struct Config {
    /// The pot the exchange pays into, and rewards are paid from.
    pub pot_account: AccountId,
    /// The longest link accepted, in bytes.
    pub max_url_len: u32,
    /// The most accounts paid in one distribution.
    pub max_participants_per_round: u32,
    /// How long the off-chain worker waits for a page, in milliseconds.
    pub http_timeout_millis: u64,
    /// Priority of the unsigned transactions that report a check.
    pub unsigned_priority: u64,
}

/// A submitted link and what became of it.
#[derive(Debug)]
pub struct Submission {
    pub who: AccountId,
    pub url: Vec<u8>,
    pub at: BlockNumber,
    pub verified: bool,
    pub matched: bool,
}

/// A link waiting for the off-chain check: who submitted it, and in which block.
#[derive(Debug)]
pub struct PendingLink {
    pub who: AccountId,
    pub url: Vec<u8>,
    pub at: BlockNumber,
}

/// A pending link with its bytes as a sequence.
pub struct PendingLinkView {
    pub who: AccountId,
    pub url: Seq<u8>,
    pub at: BlockNumber,
}

impl View for PendingLink {
    type V = PendingLinkView;

    open spec fn view(&self) -> PendingLinkView {
        PendingLinkView { who: self.who, url: self.url@, at: self.at }
    }
}

impl PendingLink {
    /// A copy of this link.
    pub fn copy(&self) -> (r: PendingLink)
        ensures
            r@ == self@,
    {
        let url = self.url.clone();
        assert(url@ =~= self.url@);
        PendingLink { who: self.who, url, at: self.at }
    }
}

/// Events of the share-mining pallet.
#[derive(Debug)]
pub enum Event {
    /// A link was submitted: account, link.
    LinkSubmitted(AccountId, Vec<u8>),
    /// A link was checked: account, link, whether the page mentions a keyword.
    LinkVerified(AccountId, Vec<u8>, bool),
    /// A distribution: round, accounts paid, paid to each, paid in all.
    RewardsDistributed(u64, u32, Balance, Balance),
    /// The pot was told of new funds.
    PotIncreased(Balance),
}

/// An event with its byte strings as sequences.
pub enum EventView {
    LinkSubmitted(AccountId, Seq<u8>),
    LinkVerified(AccountId, Seq<u8>, bool),
    RewardsDistributed(u64, u32, Balance, Balance),
    PotIncreased(Balance),
}

impl View for Event {
    type V = EventView;

    open spec fn view(&self) -> EventView {
        match self {
            Event::LinkSubmitted(w, u) => EventView::LinkSubmitted(*w, u@),
            Event::LinkVerified(w, u, m) => EventView::LinkVerified(*w, u@, *m),
            Event::RewardsDistributed(r, c, p, t) => EventView::RewardsDistributed(*r, *c, *p, *t),
            Event::PotIncreased(a) => EventView::PotIncreased(*a),
        }
    }
}

/// Errors of the share-mining pallet.
#[derive(Clone, Copy, Debug, PartialEq, Eq, Structural)]
pub enum Error {
    UrlTooLong,
    DuplicateSubmission,
    NotFound,
    NoWinners,
    InsufficientPot,
    HttpError,
    DecodeError,
    Overflow,
    /// The call was not dispatched by the origin it needs.
    BadOrigin,
    /// The balances pallet refused a transfer of the distribution.
    TransferFailed,
}

/// The state of the share-mining pallet.
pub struct ShareMiningState {
    /// The current round; it advances when a distribution pays every winner.
    pub round_id: u64,
    /// Links waiting for the off-chain check, oldest first.
    pub pending: Seq<PendingLinkView>,
    /// Accounts whose pages mention a keyword and that were not paid yet,
    /// in the order they qualified.
    pub winners: Seq<AccountId>,
    /// The count of winners.
    pub winners_count: u32,
    /// Events deposited, oldest first.
    pub events: Seq<EventView>,
}

/// No link is pending twice, no account is a winner twice, and no pending
/// link is longer than a link may be.
pub open spec fn valid(s: ShareMiningState, c: Config) -> bool {
    &&& s.pending.no_duplicates()
    &&& s.winners.no_duplicates()
    &&& forall|i: int| 0 <= i < s.pending.len() ==> (#[trigger] s.pending[i]).url.len() <= c.max_url_len
}

/// The link submitted by `who` in block `at` is pending.
pub open spec fn is_pending(s: ShareMiningState, who: AccountId, url: Seq<u8>, at: BlockNumber) -> bool {
    s.pending.contains(PendingLinkView { who, url, at })
}

/// `winners` without the accounts in `paid`.
pub open spec fn without(winners: Seq<AccountId>, paid: Seq<AccountId>) -> Seq<AccountId>
    decreases winners.len(),
{
    if winners.len() == 0 {
        Seq::empty()
    } else {
        without(winners.drop_last(), paid) + if paid.contains(winners.last()) {
            Seq::empty()
        } else {
            seq![winners.last()]
        }
    }
}

/// The accounts left in `without(winners, paid)` are those of `winners` not in `paid`.
pub proof fn lemma_without_contains(winners: Seq<AccountId>, paid: Seq<AccountId>, a: AccountId)
    ensures
        without(winners, paid).contains(a) <==> (winners.contains(a) && !paid.contains(a)),
    decreases winners.len(),
{
    if winners.len() > 0 {
        let rest = winners.drop_last();
        lemma_without_contains(rest, paid, a);
        let tail = if paid.contains(winners.last()) {
            Seq::<AccountId>::empty()
        } else {
            seq![winners.last()]
        };
        assert(without(winners, paid) == without(rest, paid) + tail);
        if without(winners, paid).contains(a) {
            let i = choose|i: int| 0 <= i < without(winners, paid).len() && without(winners, paid)[i] == a;
            if i < without(rest, paid).len() {
                assert(without(rest, paid)[i] == a);
                assert(rest.contains(a));
                let j = choose|j: int| 0 <= j < rest.len() && rest[j] == a;
                assert(winners[j] == a);
            } else {
                assert(tail[i - without(rest, paid).len()] == a);
                assert(winners[winners.len() - 1] == a);
            }
        }
        if winners.contains(a) && !paid.contains(a) {
            let j = choose|j: int| 0 <= j < winners.len() && winners[j] == a;
            if j < winners.len() - 1 {
                assert(rest[j] == a);
                assert(without(rest, paid).contains(a));
                let k = choose|k: int| 0 <= k < without(rest, paid).len() && without(rest, paid)[k] == a;
                assert(without(winners, paid)[k] == a);
            } else {
                assert(without(winners, paid)[without(rest, paid).len() as int] == a);
            }
        }
    }
}

/// Taking accounts out of a list with no account twice leaves no account twice.
pub proof fn lemma_without_no_duplicates(winners: Seq<AccountId>, paid: Seq<AccountId>)
    requires
        winners.no_duplicates(),
    ensures
        without(winners, paid).no_duplicates(),
    decreases winners.len(),
{
    if winners.len() > 0 {
        let rest = winners.drop_last();
        assert(rest.no_duplicates()) by {
            assert forall|i: int, j: int| 0 <= i < rest.len() && 0 <= j < rest.len() && i != j implies rest[i] != rest[j] by {
                assert(winners[i] == rest[i] && winners[j] == rest[j]);
            }
        }
        lemma_without_no_duplicates(rest, paid);
        let last = winners.last();
        if !paid.contains(last) {
            lemma_without_contains(rest, paid, last);
            if rest.contains(last) {
                let j = choose|j: int| 0 <= j < rest.len() && rest[j] == last;
                assert(winners[j] == winners[winners.len() - 1]);
            }
            let w = without(rest, paid);
            let f = without(winners, paid);
            assert(f == w.push(last));
            assert forall|i: int, j: int| 0 <= i < f.len() && 0 <= j < f.len() && i != j implies f[i] != f[j] by {
                if i < w.len() && j < w.len() {
                } else if i < w.len() {
                    assert(w.contains(f[i]));
                } else {
                    assert(w.contains(f[j]));
                }
            }
        }
    }
}

/// The share-mining pallet: its constants and its storage.
pub struct Pallet {
    config: Config,
    round_id: u64,
    pending: Vec<PendingLink>,
    winners: Vec<AccountId>,
    winners_count: u32,
    events: Vec<Event>,
}

impl View for Pallet {
    type V = ShareMiningState;

    closed spec fn view(&self) -> ShareMiningState {
        ShareMiningState {
            round_id: self.round_id,
            pending: self.pending@.map_values(|p: PendingLink| p@),
            winners: self.winners@,
            winners_count: self.winners_count,
            events: self.events@.map_values(|e: Event| e@),
        }
    }
}

impl Pallet {
    /// The constants of the pallet.
    pub closed spec fn config(&self) -> Config {
        self.config
    }

    /// A pallet with empty storage.
    pub fn new(config: Config) -> (p: Pallet)
        ensures
            p.config() == config,
            valid(p@, config),
            p@.round_id == 0,
            p@.pending == Seq::<PendingLinkView>::empty(),
            p@.winners == Seq::<AccountId>::empty(),
            p@.winners_count == 0,
            p@.events == Seq::<EventView>::empty(),
    {
        let p = Pallet {
            config,
            round_id: 0,
            pending: Vec::new(),
            winners: Vec::new(),
            winners_count: 0,
            events: Vec::new(),
        };
        assert(p@.pending =~= Seq::<PendingLinkView>::empty());
        assert(p@.events =~= Seq::<EventView>::empty());
        p
    }

    /// The account of the pot.
    pub fn pot_account(&self) -> (r: AccountId)
        ensures
            r == self.config().pot_account,
    {
        self.config.pot_account
    }

    /// The current round.
    pub fn round_id(&self) -> (r: u64)
        ensures
            r == self@.round_id,
    {
        self.round_id
    }

    /// The count of winners not paid yet.
    pub fn winners_count(&self) -> (r: u32)
        ensures
            r == self@.winners_count,
    {
        self.winners_count
    }

    /// Whether `who` is a winner not paid yet.
    pub fn is_winner(&self, who: &AccountId) -> (r: bool)
        ensures
            r == self@.winners.contains(*who),
    {
        contains_account(&self.winners, who)
    }

    /// The events deposited so far, oldest first.
    pub fn events(&self) -> (r: &Vec<Event>)
        ensures
            r@.map_values(|e: Event| e@) == self@.events,
    {
        &self.events
    }

    /// Where the link submitted by `who` in block `at` waits, if it does.
    fn find_pending(&self, who: &AccountId, url: &Vec<u8>, at: BlockNumber) -> (r: Option<usize>)
        ensures
            match r {
                Some(i) => i < self@.pending.len() && self@.pending[i as int] == (PendingLinkView {
                    who: *who,
                    url: url@,
                    at,
                }),
                None => !is_pending(self@, *who, url@, at),
            },
    {
        let mut i: usize = 0;
        while i < self.pending.len()
            invariant
                i <= self.pending@.len(),
                forall|t: int| 0 <= t < i ==> self@.pending[t] != (PendingLinkView {
                    who: *who,
                    url: url@,
                    at,
                }),
            decreases self.pending@.len() - i,
        {
            let p = &self.pending[i];
            if p.who.key_eq(who) && same_bytes(&p.url, url) && p.at == at {
                return Some(i);
            }
            i = i + 1;
        }
        None
    }

    /// Whether the link submitted by `who` in block `at` waits for its check.
    pub fn pending(&self, who: &AccountId, url: &Vec<u8>, at: BlockNumber) -> (r: bool)
        ensures
            r == is_pending(self@, *who, url@, at),
    {
        match self.find_pending(who, url, at) {
            Some(i) => {
                assert(self@.pending[i as int] == PendingLinkView { who: *who, url: url@, at });
                true
            },
            None => false,
        }
    }
}

/// Whether `who` is one of `accounts`.
fn contains_account(accounts: &Vec<AccountId>, who: &AccountId) -> (r: bool)
    ensures
        r == accounts@.contains(*who),
{
    let mut i: usize = 0;
    while i < accounts.len()
        invariant
            i <= accounts@.len(),
            forall|t: int| 0 <= t < i ==> accounts@[t] != *who,
        decreases accounts@.len() - i,
    {
        if accounts[i].key_eq(who) {
            assert(accounts@[i as int] == *who);
            return true;
        }
        i = i + 1;
    }
    false
}

impl Pallet {
    /// The signer submits `url` in block `now`; the link waits for the
    /// off-chain check.
    pub fn submit_link(&mut self, origin: Origin, url: Vec<u8>, now: BlockNumber) -> (r: Result<
        (),
        Error,
    >)
        requires
            valid(old(self)@, old(self).config()),
        ensures
            valid(final(self)@, final(self).config()),
            final(self).config() == old(self).config(),
            signer(origin) is None ==> r == Err::<(), Error>(Error::BadOrigin) && final(self)@ == old(
                self)@,
            signer(origin) is Some && url@.len() > old(self).config().max_url_len ==> r == Err::<
                (),
                Error,
            >(Error::UrlTooLong) && final(self)@ == old(self)@,
            signer(origin) matches Some(who) ==> url@.len() <= old(self).config().max_url_len
                && is_pending(old(self)@, who, url@, now) ==> r == Err::<(), Error>(
                Error::DuplicateSubmission,
            ) && final(self)@ == old(self)@,
            signer(origin) matches Some(who) ==> url@.len() <= old(self).config().max_url_len
                && !is_pending(old(self)@, who, url@, now) ==> r is Ok && final(self)@ == (
            ShareMiningState {
                pending: old(self)@.pending.push(PendingLinkView { who, url: url@, at: now }),
                events: old(self)@.events.push(EventView::LinkSubmitted(who, url@)),
                ..old(self)@
            }),
    {
        let who = match ensure_signed(origin) {
            Some(w) => w,
            None => return Err(Error::BadOrigin),
        };
        if url.len() > self.config.max_url_len as usize {
            return Err(Error::UrlTooLong);
        }
        if self.find_pending(&who, &url, now).is_some() {
            return Err(Error::DuplicateSubmission);
        }
        let link = PendingLink { who, url: url.clone(), at: now };
        let ghost link_view = link@;
        assert(link_view.url =~= url@);
        let ghost old_pending = self.pending@;
        self.pending.push(link);
        assert(self.pending@.map_values(|p: PendingLink| p@) =~= old_pending.map_values(
            |p: PendingLink| p@,
        ).push(link_view));
        let ghost old_events = self.events@;
        let ev = Event::LinkSubmitted(who, url);
        let ghost ev_view = ev@;
        self.events.push(ev);
        assert(self.events@.map_values(|e: Event| e@) =~= old_events.map_values(|e: Event| e@).push(
            ev_view,
        ));
        proof {
            let pv = old(self)@.pending;
            let nv = self@.pending;
            assert forall|a: int, b: int| 0 <= a < nv.len() && 0 <= b < nv.len() && a != b implies nv[a] != nv[b] by {
                if a < pv.len() && b < pv.len() {
                    assert(nv[a] == pv[a] && nv[b] == pv[b]);
                } else if a < pv.len() {
                    assert(nv[a] == pv[a]);
                    assert(!pv.contains(link_view));
                } else {
                    assert(nv[b] == pv[b]);
                    assert(!pv.contains(link_view));
                }
            }
        }
        Ok(())
    }

    /// The off-chain worker reports, in an unsigned call, whether the page of
    /// the link `who` submitted in block `submitted_at` mentions a keyword.
    /// The link stops waiting; a matching account becomes a winner, once.
    pub fn submit_verification(
        &mut self,
        origin: Origin,
        who: AccountId,
        url: Vec<u8>,
        submitted_at: BlockNumber,
        matched: bool,
    ) -> (r: Result<(), Error>)
        requires
            valid(old(self)@, old(self).config()),
        ensures
            valid(final(self)@, final(self).config()),
            final(self).config() == old(self).config(),
            !(origin is Unsigned) ==> r == Err::<(), Error>(Error::BadOrigin) && final(self)@ == old(
                self)@,
            origin is Unsigned && url@.len() > old(self).config().max_url_len ==> r == Err::<
                (),
                Error,
            >(Error::UrlTooLong) && final(self)@ == old(self)@,
            origin is Unsigned && url@.len() <= old(self).config().max_url_len && !is_pending(
                old(self)@,
                who,
                url@,
                submitted_at,
            ) ==> r == Err::<(), Error>(Error::NotFound) && final(self)@ == old(self)@,
            origin is Unsigned && url@.len() <= old(self).config().max_url_len && is_pending(
                old(self)@,
                who,
                url@,
                submitted_at,
            ) ==> ({
                let s = old(self)@;
                let joins = matched && !s.winners.contains(who);
                &&& r is Ok
                &&& exists|i: int|
                    0 <= i < s.pending.len() && s.pending[i] == (PendingLinkView {
                        who,
                        url: url@,
                        at: submitted_at,
                    }) && final(self)@.pending == s.pending.remove(i)
                &&& final(self)@.winners == (if joins {
                    s.winners.push(who)
                } else {
                    s.winners
                })
                &&& final(self)@.winners_count == (if joins {
                    s.winners_count.saturating_add(1)
                } else {
                    s.winners_count
                })
                &&& final(self)@.round_id == s.round_id
                &&& final(self)@.events == s.events.push(
                    EventView::LinkVerified(who, url@, matched),
                )
            }),
    {
        match origin {
            Origin::Unsigned => {},
            _ => return Err(Error::BadOrigin),
        }
        if url.len() > self.config.max_url_len as usize {
            return Err(Error::UrlTooLong);
        }
        let index = match self.find_pending(&who, &url, submitted_at) {
            Some(i) => i,
            None => return Err(Error::NotFound),
        };
        let ghost old_pending = self.pending@;
        let _taken = self.pending.remove(index);
        assert(self.pending@.map_values(|p: PendingLink| p@) =~= old_pending.map_values(
            |p: PendingLink| p@,
        ).remove(index as int));
        if matched {
            if !contains_account(&self.winners, &who) {
                self.winners.push(who);
                self.winners_count = self.winners_count.saturating_add(1);
            }
        }
        let ghost old_events = self.events@;
        let ev = Event::LinkVerified(who, url, matched);
        let ghost ev_view = ev@;
        self.events.push(ev);
        assert(self.events@.map_values(|e: Event| e@) =~= old_events.map_values(|e: Event| e@).push(
            ev_view,
        ));
        proof {
            let s = old(self)@;
            let pv = s.pending;
            let nv = self@.pending;
            let k = index as int;
            assert forall|a: int, b: int| 0 <= a < nv.len() && 0 <= b < nv.len() && a != b implies nv[a] != nv[b] by {
                let oa = if a < k { a } else { a + 1 };
                let ob = if b < k { b } else { b + 1 };
                assert(nv[a] == pv[oa] && nv[b] == pv[ob]);
            }
            let wv = self@.winners;
            if matched && !s.winners.contains(who) {
                assert forall|a: int, b: int| 0 <= a < wv.len() && 0 <= b < wv.len() && a != b implies wv[a] != wv[b] by {
                    if a < s.winners.len() && b < s.winners.len() {
                    } else if a < s.winners.len() {
                        assert(wv[a] == s.winners[a]);
                    } else {
                        assert(wv[b] == s.winners[b]);
                    }
                }
            }
        }
        Ok(())
    }

    /// The links the off-chain worker checks in one block: the first five
    /// waiting, oldest first.
    pub fn links_to_check(&self) -> (r: Vec<PendingLink>)
        ensures
            r@.map_values(|p: PendingLink| p@) == self@.pending.take(
                if self@.pending.len() < 5 {
                    self@.pending.len() as int
                } else {
                    5
                },
            ),
    {
        let n: usize = if self.pending.len() < 5 {
            self.pending.len()
        } else {
            5
        };
        let mut out: Vec<PendingLink> = Vec::new();
        let mut i: usize = 0;
        while i < n
            invariant
                n <= self.pending@.len(),
                i <= n,
                out@.map_values(|p: PendingLink| p@) == self@.pending.take(i as int),
            decreases n - i,
        {
            let ghost before = out@;
            out.push(self.pending[i].copy());
            assert(out@.map_values(|p: PendingLink| p@) =~= before.map_values(|p: PendingLink| p@).push(
                self@.pending[i as int],
            ));
            assert(self@.pending.take(i + 1) =~= self@.pending.take(i as int).push(
                self@.pending[i as int],
            ));
            i = i + 1;
        }
        out
    }

    /// Whether the transaction pool accepts an unsigned report on the link
    /// `who` submitted in block `submitted_at`: only while the link waits.
    /// An accepted report provides the link as its tag, so the pool keeps one
    /// report per link.
    pub fn validate_verification(&self, who: &AccountId, url: &Vec<u8>, submitted_at: BlockNumber) -> (r:
        Result<ValidReport, InvalidReport>)
        ensures
            url@.len() > self.config().max_url_len ==> (r matches Err(e) && e
                == InvalidReport::ExhaustsResources),
            url@.len() <= self.config().max_url_len && !is_pending(self@, *who, url@, submitted_at)
                ==> (r matches Err(e) && e == InvalidReport::Stale),
            url@.len() <= self.config().max_url_len && is_pending(self@, *who, url@, submitted_at)
                ==> (r matches Ok(v) && v.priority == self.config().unsigned_priority && v.longevity
                == 64 && v.propagate && v.provides@ == (PendingLinkView {
                who: *who,
                url: url@,
                at: submitted_at,
            })),
    {
        if url.len() > self.config.max_url_len as usize {
            return Err(InvalidReport::ExhaustsResources);
        }
        if !self.pending(who, url, submitted_at) {
            return Err(InvalidReport::Stale);
        }
        let tag = PendingLink { who: *who, url: url.clone(), at: submitted_at };
        assert(tag@.url =~= url@);
        Ok(
            ValidReport {
                priority: self.config.unsigned_priority,
                longevity: 64,
                propagate: true,
                provides: tag,
            },
        )
    }

    /// The signer tells the pot of `amount` new funds, which the caller moved.
    pub fn increase_pot_balance(&mut self, origin: Origin, amount: Balance) -> (r: Result<(), Error>)
        ensures
            final(self).config() == old(self).config(),
            signer(origin) is None ==> r == Err::<(), Error>(Error::BadOrigin) && final(self)@ == old(
                self)@,
            signer(origin) is Some ==> r is Ok && final(self)@ == (ShareMiningState {
                events: old(self)@.events.push(EventView::PotIncreased(amount)),
                ..old(self)@
            }),
    {
        match ensure_signed(origin) {
            Some(_) => {},
            None => return Err(Error::BadOrigin),
        }
        let ghost old_events = self.events@;
        self.events.push(Event::PotIncreased(amount));
        assert(self.events@.map_values(|e: Event| e@) =~= old_events.map_values(|e: Event| e@).push(
            EventView::PotIncreased(amount),
        ));
        Ok(())
    }
}

/// How the pool takes an unsigned report it accepts.
#[derive(Debug)]
pub struct ValidReport {
    pub priority: u64,
    /// Blocks the report stays valid.
    pub longevity: u64,
    /// Whether the report is gossiped to other nodes.
    pub propagate: bool,
    /// The tag the report provides: the link it reports on. The pool keeps
    /// at most one report with a given tag.
    pub provides: PendingLink,
}

/// Why the pool refuses an unsigned report.
#[derive(Clone, Copy, Debug, PartialEq, Eq, Structural)]
pub enum InvalidReport {
    /// The link is longer than any link accepted.
    ExhaustsResources,
    /// The link does not wait for a check (any more).
    Stale,
}

/// A distribution to make: the transfers out of the pot, one per paid
/// winner, are to be made before `finish_distribution`. Only `distribute`
/// makes one.
#[derive(Debug)]
pub struct Distribution {
    total_winners: u32,
    recipients: Vec<AccountId>,
    count: u32,
    per_user: Balance,
    transfers: Vec<Transfer>,
}

/// The contents of a distribution.
pub struct DistributionView {
    /// The count of winners when the distribution began.
    pub total_winners: u32,
    /// The winners paid, in the order they qualified.
    pub recipients: Seq<AccountId>,
    /// How many winners are paid.
    pub count: u32,
    /// What each of them is paid.
    pub per_user: Balance,
    /// The transfers, one per paid winner, in order.
    pub transfers: Seq<Transfer>,
}

impl View for Distribution {
    type V = DistributionView;

    closed spec fn view(&self) -> DistributionView {
        DistributionView {
            total_winners: self.total_winners,
            recipients: self.recipients@,
            count: self.count,
            per_user: self.per_user,
            transfers: self.transfers@,
        }
    }
}

impl Distribution {
    /// The winners paid, in the order they qualified.
    pub fn recipients(&self) -> (r: &Vec<AccountId>)
        ensures
            r@ == self@.recipients,
    {
        &self.recipients
    }

    /// How many winners are paid.
    pub fn count(&self) -> (r: u32)
        ensures
            r == self@.count,
    {
        self.count
    }

    /// What each of them is paid.
    pub fn per_user(&self) -> (r: Balance)
        ensures
            r == self@.per_user,
    {
        self.per_user
    }

    /// The transfers, one per paid winner, in order.
    pub fn transfers(&self) -> (r: &Vec<Transfer>)
        ensures
            r@ == self@.transfers,
    {
        &self.transfers
    }
}

/// The smallest of three numbers.
pub open spec fn min3(a: u32, b: u32, c: u32) -> u32 {
    let ab = if a < b { a } else { b };
    if ab < c { ab } else { c }
}

/// How many winners a distribution asked to pay at most `max_winners` pays:
/// no more than asked, than counted, than a round allows, than there are.
pub open spec fn paid_count(c: Config, s: ShareMiningState, max_winners: u32) -> nat {
    let batch = min3(max_winners, s.winners_count, c.max_participants_per_round);
    if batch < s.winners.len() {
        batch as nat
    } else {
        s.winners.len()
    }
}

impl Pallet {
    /// Anyone signed starts paying out the pot, of balance `pot_balance`, in
    /// equal parts to at most `max_winners` winners, oldest first; what does
    /// not divide evenly stays in the pot.
    pub fn distribute(&self, origin: Origin, max_winners: u32, pot_balance: Balance) -> (r: Result<
        Distribution,
        Error,
    >)
        ensures
            signer(origin) is None ==> (r matches Err(e) && e == Error::BadOrigin),
            signer(origin) is Some && self@.winners_count == 0 ==> (r matches Err(e) && e
                == Error::NoWinners),
            ({
                let n = paid_count(self.config(), self@, max_winners);
                let per = pot_balance as int / n as int;
                let go = signer(origin) is Some && self@.winners_count > 0;
                &&& go && n == 0 ==> (r matches Err(e) && e == Error::NoWinners)
                &&& go && n > 0 && per == 0 ==> (r matches Err(e) && e == Error::InsufficientPot)
                &&& go && n > 0 && per > 0 ==> (r matches Ok(d) && d@.total_winners
                    == self@.winners_count && d@.count == n && d@.recipients == self@.winners.take(
                    n as int,
                ) && d@.per_user == per && d@.transfers == Seq::new(
                    n,
                    |i: int|
                        Transfer {
                            from: self.config().pot_account,
                            to: self@.winners[i],
                            amount: per as u128,
                        },
                ))
            }),
    {
        match ensure_signed(origin) {
            Some(_) => {},
            None => return Err(Error::BadOrigin),
        }
        let total_winners = self.winners_count;
        if total_winners == 0 {
            return Err(Error::NoWinners);
        }
        let mut batch = if max_winners < total_winners {
            max_winners
        } else {
            total_winners
        };
        if self.config.max_participants_per_round < batch {
            batch = self.config.max_participants_per_round;
        }
        let count: usize = if (batch as usize) < self.winners.len() {
            batch as usize
        } else {
            self.winners.len()
        };
        if count == 0 {
            return Err(Error::NoWinners);
        }
        let per_user = pot_balance / (count as u128);
        if per_user == 0 {
            return Err(Error::InsufficientPot);
        }
        let pot = self.config.pot_account;
        let mut recipients: Vec<AccountId> = Vec::new();
        let mut transfers: Vec<Transfer> = Vec::new();
        let mut i: usize = 0;
        while i < count
            invariant
                count <= self.winners@.len(),
                i <= count,
                recipients@ == self@.winners.take(i as int),
                transfers@ == Seq::new(
                    i as nat,
                    |t: int| Transfer { from: pot, to: self@.winners[t], amount: per_user },
                ),
            decreases count - i,
        {
            recipients.push(self.winners[i]);
            transfers.push(Transfer { from: pot, to: self.winners[i], amount: per_user });
            assert(self@.winners.take(i + 1) =~= self@.winners.take(i as int).push(self@.winners[i as int]));
            assert(transfers@ =~= Seq::new(
                (i + 1) as nat,
                |t: int| Transfer { from: pot, to: self@.winners[t], amount: per_user },
            ));
            i = i + 1;
        }
        Ok(Distribution {
            total_winners,
            recipients,
            count: count as u32,
            per_user,
            transfers,
        })
    }

    /// Finishes a distribution once the balances pallet made (`transferred`)
    /// or refused its transfers: the paid winners leave, the count drops, and
    /// the round advances when no winner is left.
    pub fn finish_distribution(&mut self, d: &Distribution, transferred: bool) -> (r: Result<
        (),
        Error,
    >)
        requires
            valid(old(self)@, old(self).config()),
        ensures
            valid(final(self)@, final(self).config()),
            final(self).config() == old(self).config(),
            !transferred ==> r == Err::<(), Error>(Error::TransferFailed) && final(self)@ == old(
                self)@,
            transferred ==> ({
                let s = old(self)@;
                let left = d@.total_winners.saturating_sub(d@.count);
                let round = if left == 0 {
                    s.round_id.saturating_add(1)
                } else {
                    s.round_id
                };
                &&& r is Ok
                &&& final(self)@ == (ShareMiningState {
                    round_id: round,
                    winners: without(s.winners, d@.recipients),
                    winners_count: left,
                    events: s.events.push(
                        EventView::RewardsDistributed(
                            round,
                            d@.count,
                            d@.per_user,
                            sat_mul(d@.per_user, d@.count as u128),
                        ),
                    ),
                    ..s
                })
            }),
    {
        if !transferred {
            return Err(Error::TransferFailed);
        }
        let total_paid = saturating_mul_u128(d.per_user, d.count as u128);
        let ghost ws = self.winners@;
        let mut kept: Vec<AccountId> = Vec::new();
        let mut i: usize = 0;
        while i < self.winners.len()
            invariant
                self.winners@ == ws,
                i <= ws.len(),
                kept@ == without(ws.take(i as int), d.recipients@),
            decreases ws.len() - i,
        {
            assert(ws.take(i + 1).drop_last() =~= ws.take(i as int));
            if !contains_account(&d.recipients, &self.winners[i]) {
                kept.push(self.winners[i]);
            }
            assert(kept@ =~= without(ws.take(i + 1), d.recipients@));
            i = i + 1;
        }
        assert(ws.take(i as int) =~= ws);
        proof {
            lemma_without_no_duplicates(ws, d.recipients@);
        }
        self.winners = kept;
        self.winners_count = d.total_winners.saturating_sub(d.count);
        if self.winners_count == 0 {
            self.round_id = self.round_id.saturating_add(1);
        }
        let ghost old_events = self.events@;
        let ev = Event::RewardsDistributed(self.round_id, d.count, d.per_user, total_paid);
        let ghost ev_view = ev@;
        self.events.push(ev);
        assert(self.events@.map_values(|e: Event| e@) =~= old_events.map_values(|e: Event| e@).push(
            ev_view,
        ));
        Ok(())
    }
}

/// A distribution pays no more than the pot holds, and what it leaves in
/// the pot is less than one more payment to each paid winner: the pot is
/// split in equal parts, and the remainder stays. The total paid does not
/// saturate.
pub proof fn lemma_distribution_splits_pot(pot: Balance, n: nat)
    requires
        0 < n <= u32::MAX,
    ensures
        ({
            let per = pot as int / n as int;
            &&& per * n <= pot
            &&& pot - per * n < n
            &&& sat_mul(per as u128, n as u128) == per * n
        }),
{
    let per = pot as int / n as int;
    assert(per * n <= pot && pot - per * n < n) by (nonlinear_arith)
        requires
            n > 0,
            pot >= 0,
            per == pot as int / n as int,
    ;
    assert(per >= 0) by (nonlinear_arith)
        requires
            n > 0,
            pot >= 0,
            per == pot as int / n as int,
    ;
}

/// A report on a link is accepted once: once taken out of the waiting
/// links, the link no longer waits, so a replayed report is refused.
pub proof fn lemma_report_accepted_once(s: ShareMiningState, c: Config, i: int)
    requires
        valid(s, c),
        0 <= i < s.pending.len(),
    ensures
        !s.pending.remove(i).contains(s.pending[i]),
        s.pending.remove(i).no_duplicates(),
{
    let f = s.pending.remove(i);
    if f.contains(s.pending[i]) {
        let j = choose|j: int| 0 <= j < f.len() && f[j] == s.pending[i];
        let oj = if j < i { j } else { j + 1 };
        assert(f[j] == s.pending[oj]);
    }
    assert forall|a: int, b: int| 0 <= a < f.len() && 0 <= b < f.len() && a != b implies f[a] != f[b] by {
        let oa = if a < i { a } else { a + 1 };
        let ob = if b < i { b } else { b + 1 };
        assert(f[a] == s.pending[oa] && f[b] == s.pending[ob]);
    }
}

} // verus!
