//! Meditation: signed accounts submit summaries of meditation sessions,
//! which must last long enough and be of high enough quality; the privileged
//! origin marks sessions as verified.
use vstd::prelude::*;
use crate::karma;
use crate::primitives::{AccountId, Moment, Origin, ensure_root, ensure_signed, signer};
use crate::storage::{KeyMap, value_or};

verus! {

/// Identifier of a meditation session of an account.
pub type SessionId = u64;

/// What happens after a session was submitted (such as granting karma).
pub trait RewardHook {
    fn on_session_submitted(
        &mut self,
        karma: &mut karma::Pallet,
        who: &AccountId,
        session_id: SessionId,
        metrics: MeditationMetrics,
        session: MeditationSession,
    )
        requires
            old(karma).wf(),
        ensures
            final(karma).wf(),
            final(karma).config() == old(karma).config(),
    ;
}

/// Metrics of a session, each from 0 to 100.
#[derive(Clone, Copy, Debug, PartialEq, Eq, Structural)]
pub struct MeditationMetrics {
    pub meditation_depth: u8,
    pub focus_level: u8,
    pub alpha_power: u8,
    pub theta_power: u8,
}

/// Summary of a meditation session.
#[derive(Clone, Copy, Debug, PartialEq, Eq, Structural)]
pub struct MeditationSession {
    pub start_time: Moment,
    pub duration_minutes: u32,
    pub avg_meditation_depth: u8,
    pub avg_focus_level: u8,
    pub peak_meditation_depth: u8,
    pub brainwave_quality_score: u8,
    pub verified: bool,
}

/// Why karma is granted for meditation.
#[derive(Clone, Copy, Debug, PartialEq, Eq, Structural)]
pub enum MeditationRewardReason {
    Meditation,
}

/// Constants of the meditation pallet.
#[derive(Clone, Copy, Debug)]
pub struct Config {
    /// Whether sessions are to be rewarded with karma.
    pub enable_karma_reward: bool,
    /// Karma per minute of meditation.
    pub base_reward_per_minute: u128,
    /// The shortest session accepted, in minutes.
    pub min_duration_minutes: u32,
    /// The lowest brainwave quality score accepted.
    pub min_quality_score: u8,
}

/// Errors of the meditation pallet.
#[derive(Clone, Copy, Debug, PartialEq, Eq, Structural)]
pub enum Error {
    TooShort,
    LowQuality,
    ZeroReward,
    Overflow,
    AlreadyVerified,
    /// The call was not dispatched by the origin it needs.
    BadOrigin,
}

/// Events of the meditation pallet.
#[derive(Clone, Copy, Debug)]
pub enum Event {
    SessionSubmitted(AccountId, SessionId),
    SessionVerified(AccountId, SessionId),
    KarmaRewarded(AccountId, SessionId, u128),
}

/// The state of the meditation pallet.
pub struct MeditationState {
    /// Identifier of the next session of each account.
    pub next_session_ids: Map<AccountId, SessionId>,
    /// Sessions, by account and session identifier.
    pub sessions: Map<(AccountId, SessionId), MeditationSession>,
    /// Events deposited, oldest first.
    pub events: Seq<Event>,
}

/// Identifier of the next session of `who`.
pub open spec fn next_session_id_of(s: MeditationState, who: AccountId) -> SessionId {
    value_or(s.next_session_ids, who, 0)
}

/// `session` as it is stored when submitted at time `now`: not verified
/// (only the privileged origin verifies a session), with its start time set
/// to `now` when it was left at zero.
pub open spec fn stamped(session: MeditationSession, now: Moment) -> MeditationSession {
    MeditationSession {
        start_time: if session.start_time == 0 {
            now
        } else {
            session.start_time
        },
        verified: false,
        ..session
    }
}

/// Why a submission of `session` through `origin` is refused, if it is:
/// it is not signed, too short, or of too low a quality, checked in that order.
pub open spec fn submit_error(c: Config, origin: Origin, session: MeditationSession) -> Option<Error> {
    if signer(origin) is None {
        Some(Error::BadOrigin)
    } else if session.duration_minutes < c.min_duration_minutes {
        Some(Error::TooShort)
    } else if session.brainwave_quality_score < c.min_quality_score {
        Some(Error::LowQuality)
    } else {
        None
    }
}

/// `s` after `who` submitted `session` at time `now`: the session is stored,
/// stamped, under the account's next identifier, which then moves past it.
pub open spec fn submitted(
    s: MeditationState,
    who: AccountId,
    session: MeditationSession,
    now: Moment,
) -> MeditationState {
    let id = next_session_id_of(s, who);
    MeditationState {
        next_session_ids: s.next_session_ids.insert(who, id.saturating_add(1)),
        sessions: s.sessions.insert((who, id), stamped(session, now)),
        events: s.events.push(Event::SessionSubmitted(who, id)),
    }
}

/// The meditation pallet: its constants and its storage.
pub struct Pallet {
    config: Config,
    next_session_id: KeyMap<AccountId, SessionId>,
    sessions: KeyMap<(AccountId, SessionId), MeditationSession>,
    events: Vec<Event>,
}

impl View for Pallet {
    type V = MeditationState;

    closed spec fn view(&self) -> MeditationState {
        MeditationState {
            next_session_ids: self.next_session_id@,
            sessions: self.sessions@,
            events: self.events@,
        }
    }
}

impl Pallet {
    /// The storage is well formed.
    pub closed spec fn wf(&self) -> bool {
        self.next_session_id.wf() && self.sessions.wf()
    }

    /// The constants of the pallet.
    pub closed spec fn config(&self) -> Config {
        self.config
    }

    /// A pallet with empty storage.
    pub fn new(config: Config) -> (p: Pallet)
        ensures
            p.wf(),
            p.config() == config,
            p@.next_session_ids == Map::<AccountId, SessionId>::empty(),
            p@.sessions == Map::<(AccountId, SessionId), MeditationSession>::empty(),
            p@.events == Seq::<Event>::empty(),
            ids_below_next(p@),
    {
        Pallet {
            config,
            next_session_id: KeyMap::new(),
            sessions: KeyMap::new(),
            events: Vec::new(),
        }
    }

    /// Identifier of the next session of `who`.
    pub fn next_session_id(&self, who: &AccountId) -> (r: SessionId)
        requires
            self.wf(),
        ensures
            r == next_session_id_of(self@, *who),
    {
        self.next_session_id.get_or(who, 0)
    }

    /// Session `session_id` of `who`, if there is one.
    pub fn session(&self, who: &AccountId, session_id: SessionId) -> (r: Option<MeditationSession>)
        requires
            self.wf(),
        ensures
            r == (if self@.sessions.contains_key((*who, session_id)) {
                Some(self@.sessions[(*who, session_id)])
            } else {
                None
            }),
    {
        match self.sessions.get(&(*who, session_id)) {
            Some(s) => Some(*s),
            None => None,
        }
    }

    /// The events deposited so far, oldest first.
    pub fn events(&self) -> (r: &Vec<Event>)
        ensures
            r@ == self@.events,
    {
        &self.events
    }

    /// The signer submits `session` at time `now`. A session that is long
    /// enough and of high enough quality is stored under the signer's next
    /// session identifier, not verified whatever the caller claims, with its
    /// start time set to `now` when it was left at zero. On success the
    /// identifier and the stored session are returned, for the reward hook.
    pub fn submit_session(
        &mut self,
        origin: Origin,
        metrics: MeditationMetrics,
        session: MeditationSession,
        now: Moment,
    ) -> (r: Result<(SessionId, MeditationSession), Error>)
        requires
            old(self).wf(),
        ensures
            final(self).wf(),
            final(self).config() == old(self).config(),
            submit_error(old(self).config(), origin, session) matches Some(e) ==> r == Err::<
                (SessionId, MeditationSession),
                Error,
            >(e) && final(self)@ == old(self)@,
            signer(origin) matches Some(who) ==> submit_error(old(self).config(), origin, session)
                is None ==> r == Ok::<(SessionId, MeditationSession), Error>(
                (next_session_id_of(old(self)@, who), stamped(session, now)),
            ) && final(self)@ == submitted(old(self)@, who, session, now),
    {
        let who = match ensure_signed(origin) {
            Some(w) => w,
            None => return Err(Error::BadOrigin),
        };
        if session.duration_minutes < self.config.min_duration_minutes {
            return Err(Error::TooShort);
        }
        if session.brainwave_quality_score < self.config.min_quality_score {
            return Err(Error::LowQuality);
        }
        let mut session = session;
        if session.start_time == 0 {
            session.start_time = now;
        }
        session.verified = false;
        let session_id = self.next_session_id.get_or(&who, 0);
        self.next_session_id.insert(who, session_id.saturating_add(1));
        self.sessions.insert((who, session_id), session);
        self.events.push(Event::SessionSubmitted(who, session_id));
        Ok((session_id, session))
    }

    /// The privileged origin marks session `session_id` of `who` as verified.
    /// A missing session is left alone; a verified one is refused.
    pub fn verify_session(&mut self, origin: Origin, who: AccountId, session_id: SessionId) -> (r:
        Result<(), Error>)
        requires
            old(self).wf(),
        ensures
            final(self).wf(),
            final(self).config() == old(self).config(),
            !(origin is Root) ==> r == Err::<(), Error>(Error::BadOrigin) && final(self)@ == old(self)@,
            origin is Root && !old(self)@.sessions.contains_key((who, session_id)) ==> r is Ok
                && final(self)@ == old(self)@,
            origin is Root && old(self)@.sessions.contains_key((who, session_id)) && old(self)@.sessions[(who, session_id)].verified ==> r == Err::<(), Error>(
                Error::AlreadyVerified,
            ) && final(self)@ == old(self)@,
            origin is Root && old(self)@.sessions.contains_key((who, session_id)) && !old(self)@.sessions[(who, session_id)].verified ==> r is Ok && final(self)@ == marked_verified(old(self)@, who, session_id),
    {
        if !ensure_root(origin) {
            return Err(Error::BadOrigin);
        }
        match self.sessions.get(&(who, session_id)) {
            Some(found) => {
                let mut s = *found;
                if s.verified {
                    return Err(Error::AlreadyVerified);
                }
                s.verified = true;
                self.sessions.insert((who, session_id), s);
                self.events.push(Event::SessionVerified(who, session_id));
            },
            None => {},
        }
        Ok(())
    }
}

} // verus!

verus! {

/// `s` after session `session_id` of `who` was marked verified.
pub open spec fn marked_verified(s: MeditationState, who: AccountId, session_id: SessionId) -> MeditationState {
    MeditationState {
        sessions: s.sessions.insert(
            (who, session_id),
            (MeditationSession { verified: true, ..s.sessions[(who, session_id)] }),
        ),
        events: s.events.push(Event::SessionVerified(who, session_id)),
        ..s
    }
}

/// Once a session is marked verified, marking it again is refused.
pub proof fn lemma_verified_once(s: MeditationState, who: AccountId, session_id: SessionId)
    requires
        s.sessions.contains_key((who, session_id)),
    ensures
        marked_verified(s, who, session_id).sessions.contains_key((who, session_id)),
        marked_verified(s, who, session_id).sessions[(who, session_id)].verified,
{
}

/// Every stored session of an account has an identifier below the account's
/// next identifier (as in an empty pallet).
pub open spec fn ids_below_next(s: MeditationState) -> bool {
    forall|who: AccountId, i: SessionId|
        #[trigger] s.sessions.contains_key((who, i)) ==> i < next_session_id_of(s, who)
}

/// A submission stores the session, not verified, under a fresh identifier:
/// no session of the account is overwritten, the account's next identifier
/// moves past the new one, and every session keeps an identifier below its
/// account's next identifier (while identifiers have not run out).
pub proof fn lemma_session_ids_advance(
    s: MeditationState,
    who: AccountId,
    session: MeditationSession,
    now: Moment,
)
    requires
        ids_below_next(s),
        next_session_id_of(s, who) < u64::MAX,
    ensures
        ({
            let id = next_session_id_of(s, who);
            let f = submitted(s, who, session, now);
            &&& !s.sessions.contains_key((who, id))
            &&& f.sessions[(who, id)] == stamped(session, now)
            &&& !f.sessions[(who, id)].verified
            &&& next_session_id_of(f, who) == id + 1
            &&& forall|a: AccountId, i: SessionId| #[trigger] s.sessions.contains_key((a, i))
                ==> f.sessions.contains_key((a, i)) && f.sessions[(a, i)] == s.sessions[(a, i)]
            &&& ids_below_next(f)
        }),
{
    let id = next_session_id_of(s, who);
    let f = submitted(s, who, session, now);
    assert forall|a: AccountId, i: SessionId| #[trigger] f.sessions.contains_key((a, i)) implies i
        < next_session_id_of(f, a) by {
        if a == who {
            if i != id {
                assert(s.sessions.contains_key((a, i)));
            }
        } else {
            assert(s.sessions.contains_key((a, i)));
            assert(f.next_session_ids == s.next_session_ids.insert(who, (id + 1) as u64));
        }
    }
}

/// Marking a session verified keeps every identifier below its account's
/// next identifier.
pub proof fn lemma_verify_keeps_ids(s: MeditationState, who: AccountId, session_id: SessionId)
    requires
        ids_below_next(s),
        s.sessions.contains_key((who, session_id)),
    ensures
        ids_below_next(marked_verified(s, who, session_id)),
{
    let f = marked_verified(s, who, session_id);
    assert forall|a: AccountId, i: SessionId| #[trigger] f.sessions.contains_key((a, i)) implies i
        < next_session_id_of(f, a) by {
        assert(s.sessions.contains_key((a, i)));
    }
}

/// A stored session keeps what its submitter reported except two things: it
/// is never verified, and a start time left at zero becomes the time of
/// submission.
pub proof fn lemma_stored_session(session: MeditationSession, now: Moment)
    ensures
        !stamped(session, now).verified,
        session.start_time != 0 ==> stamped(session, now).start_time == session.start_time,
        session.start_time == 0 ==> stamped(session, now).start_time == now,
        stamped(session, now).duration_minutes == session.duration_minutes,
        stamped(session, now).brainwave_quality_score == session.brainwave_quality_score,
        stamped(session, now).avg_meditation_depth == session.avg_meditation_depth,
        stamped(session, now).avg_focus_level == session.avg_focus_level,
        stamped(session, now).peak_meditation_depth == session.peak_meditation_depth,
{
}

} // verus!
