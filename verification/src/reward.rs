//! Reward: grants karma for submitted meditation sessions, computed as a
//! weighted sum of the session's length and metrics.
use vstd::prelude::*;
use crate::karma;
use crate::karma::{KarmaProvider, RewardReason, rewarded};
use crate::meditation::{MeditationMetrics, MeditationSession, RewardHook, SessionId};
use crate::primitives::{AccountId, Origin, ensure_root, sat_mul, saturating_mul_u128};

verus! {

/// Weights of the reward computation.
#[derive(Clone, Copy, Debug, PartialEq, Eq, Structural)]
pub struct RewardWeights {
    /// Karma per minute of meditation.
    pub base_per_minute: u128,
    /// Weight of the meditation depth.
    pub depth_weight: u8,
    /// Weight of the focus level.
    pub focus_weight: u8,
    /// Weight of the brainwave quality score.
    pub quality_weight: u8,
}

/// Constants of the reward pallet.
#[derive(Clone, Copy, Debug)]
pub struct Config {
    pub reward_weights: RewardWeights,
    /// Whether only verified sessions are rewarded.
    pub only_reward_verified: bool,
}

/// Events of the reward pallet.
#[derive(Clone, Copy, Debug)]
pub enum Event {
    /// Karma granted for a session: account, session, amount.
    RewardGranted(AccountId, SessionId, u128),
}

/// Errors of the reward pallet.
#[derive(Clone, Copy, Debug, PartialEq, Eq, Structural)]
pub enum Error {
    ZeroReward,
    Overflow,
    NotVerified,
    /// The call was not dispatched by the privileged origin.
    BadOrigin,
}

/// The reward of a session: minutes times the base, plus each metric
/// times its weight, every step saturating.
pub open spec fn reward_amount(
    w: RewardWeights,
    metrics: MeditationMetrics,
    session: MeditationSession,
) -> u128 {
    let base = sat_mul(session.duration_minutes as u128, w.base_per_minute);
    let depth = sat_mul(metrics.meditation_depth as u128, w.depth_weight as u128);
    let focus = sat_mul(metrics.focus_level as u128, w.focus_weight as u128);
    let quality = sat_mul(session.brainwave_quality_score as u128, w.quality_weight as u128);
    base.saturating_add(depth).saturating_add(focus).saturating_add(quality)
}

/// Whether the hook grants karma for a submitted session: the session is
/// verified or unverified ones are rewarded too, and its reward is positive.
pub open spec fn hook_grants(c: Config, metrics: MeditationMetrics, session: MeditationSession) -> bool {
    !(c.only_reward_verified && !session.verified) && reward_amount(
        c.reward_weights,
        metrics,
        session,
    ) > 0
}

/// The reward pallet: its constants and the events it deposited.
pub struct Pallet {
    config: Config,
    events: Vec<Event>,
}

impl Pallet {
    /// The constants of the pallet.
    pub closed spec fn config(&self) -> Config {
        self.config
    }

    /// The events deposited so far, oldest first.
    pub closed spec fn events(&self) -> Seq<Event> {
        self.events@
    }

    pub fn new(config: Config) -> (p: Pallet)
        ensures
            p.config() == config,
            p.events() == Seq::<Event>::empty(),
    {
        Pallet { config, events: Vec::new() }
    }

    /// The events deposited so far, oldest first.
    pub fn deposited(&self) -> (r: &Vec<Event>)
        ensures
            r@ == self.events(),
    {
        &self.events
    }

    /// The reward of a session under the configured weights.
    pub fn calculate_reward_internal(
        &self,
        metrics: &MeditationMetrics,
        session: &MeditationSession,
    ) -> (r: u128)
        ensures
            r == reward_amount(self.config().reward_weights, *metrics, *session),
    {
        let w = self.config.reward_weights;
        let base = saturating_mul_u128(session.duration_minutes as u128, w.base_per_minute);
        let depth = saturating_mul_u128(metrics.meditation_depth as u128, w.depth_weight as u128);
        let focus = saturating_mul_u128(metrics.focus_level as u128, w.focus_weight as u128);
        let quality = saturating_mul_u128(
            session.brainwave_quality_score as u128,
            w.quality_weight as u128,
        );
        base.saturating_add(depth).saturating_add(focus).saturating_add(quality)
    }

    /// The privileged origin grants `who` the reward of a session.
    pub fn grant_for_session(
        &mut self,
        karma: &mut karma::Pallet,
        origin: Origin,
        who: AccountId,
        session_id: SessionId,
        metrics: MeditationMetrics,
        session: MeditationSession,
    ) -> (r: Result<(), Error>)
        requires
            old(karma).wf(),
        ensures
            final(karma).wf(),
            final(karma).config() == old(karma).config(),
            final(self).config() == old(self).config(),
            ({
                let amount = reward_amount(old(self).config().reward_weights, metrics, session);
                let refused = !(origin is Root) || amount == 0 || (
                old(self).config().only_reward_verified && !session.verified);
                &&& !(origin is Root) ==> r == Err::<(), Error>(Error::BadOrigin)
                &&& origin is Root && amount == 0 ==> r == Err::<(), Error>(Error::ZeroReward)
                &&& origin is Root && amount > 0 && old(self).config().only_reward_verified
                    && !session.verified ==> r == Err::<(), Error>(Error::NotVerified)
                &&& refused ==> final(karma)@ == old(karma)@ && final(self).events() == old(
                    self).events()
                &&& !refused ==> r is Ok && final(karma)@ == rewarded(
                    old(karma)@,
                    who,
                    amount,
                    RewardReason::Meditation,
                ) && final(self).events() == old(self).events().push(
                    Event::RewardGranted(who, session_id, amount),
                )
            }),
    {
        if !ensure_root(origin) {
            return Err(Error::BadOrigin);
        }
        let amount = self.calculate_reward_internal(&metrics, &session);
        if amount == 0 {
            return Err(Error::ZeroReward);
        }
        if self.config.only_reward_verified && !session.verified {
            return Err(Error::NotVerified);
        }
        match karma.reward_karma(&who, amount, RewardReason::Meditation) {
            Ok(()) => {},
            Err(_) => return Err(Error::Overflow),
        }
        self.events.push(Event::RewardGranted(who, session_id, amount));
        Ok(())
    }
}

impl RewardHook for Pallet {
    /// Grants the reward of a just submitted session, unless only verified
    /// sessions are rewarded and this one is not, or the reward is zero.
    fn on_session_submitted(
        &mut self,
        karma: &mut karma::Pallet,
        who: &AccountId,
        session_id: SessionId,
        metrics: MeditationMetrics,
        session: MeditationSession,
    )
        ensures
            final(self).config() == old(self).config(),
            !hook_grants(old(self).config(), metrics, session) ==> final(karma)@ == old(karma)@
                && final(self).events() == old(self).events(),
            hook_grants(old(self).config(), metrics, session) ==> ({
                let amount = reward_amount(old(self).config().reward_weights, metrics, session);
                &&& final(karma)@ == rewarded(old(karma)@, *who, amount, RewardReason::Meditation)
                &&& final(self).events() == old(self).events().push(
                    Event::RewardGranted(*who, session_id, amount),
                )
            }),
    {
        if self.config.only_reward_verified && !session.verified {
            return;
        }
        let amount = self.calculate_reward_internal(&metrics, &session);
        if amount > 0 {
            match karma.reward_karma(who, amount, RewardReason::Meditation) {
                Ok(()) => {
                    self.events.push(Event::RewardGranted(*who, session_id, amount));
                },
                Err(_) => {},
            }
        }
    }
}

/// The reward as plain arithmetic: minutes times the base, plus each metric
/// times its own weight, when that total fits in a `u128`.
pub proof fn lemma_reward_is_weighted_sum(w: RewardWeights, m: MeditationMetrics, s: MeditationSession)
    requires
        s.duration_minutes * w.base_per_minute + m.meditation_depth * w.depth_weight + m.focus_level
            * w.focus_weight + s.brainwave_quality_score * w.quality_weight <= u128::MAX,
    ensures
        reward_amount(w, m, s) == s.duration_minutes * w.base_per_minute + m.meditation_depth
            * w.depth_weight + m.focus_level * w.focus_weight + s.brainwave_quality_score
            * w.quality_weight,
{
    let a = s.duration_minutes as int * w.base_per_minute as int;
    let b = m.meditation_depth as int * w.depth_weight as int;
    let c = m.focus_level as int * w.focus_weight as int;
    let d = s.brainwave_quality_score as int * w.quality_weight as int;
    assert(a >= 0 && b >= 0 && c >= 0 && d >= 0) by (nonlinear_arith)
        requires
            a == s.duration_minutes as int * w.base_per_minute as int,
            b == m.meditation_depth as int * w.depth_weight as int,
            c == m.focus_level as int * w.focus_weight as int,
            d == s.brainwave_quality_score as int * w.quality_weight as int,
    ;
}

/// The reward never wraps: when minutes times the base plus each metric
/// times its own weight exceeds `u128::MAX`, the reward is `u128::MAX`.
pub proof fn lemma_reward_saturates(w: RewardWeights, m: MeditationMetrics, s: MeditationSession)
    requires
        s.duration_minutes * w.base_per_minute + m.meditation_depth * w.depth_weight + m.focus_level
            * w.focus_weight + s.brainwave_quality_score * w.quality_weight > u128::MAX,
    ensures
        reward_amount(w, m, s) == u128::MAX,
{
    let a = s.duration_minutes as int * w.base_per_minute as int;
    let b = m.meditation_depth as int * w.depth_weight as int;
    let c = m.focus_level as int * w.focus_weight as int;
    let d = s.brainwave_quality_score as int * w.quality_weight as int;
    assert(a >= 0 && b >= 0 && c >= 0 && d >= 0) by (nonlinear_arith)
        requires
            a == s.duration_minutes as int * w.base_per_minute as int,
            b == m.meditation_depth as int * w.depth_weight as int,
            c == m.focus_level as int * w.focus_weight as int,
            d == s.brainwave_quality_score as int * w.quality_weight as int,
    ;
}

/// Each weight counts its own metric and no other: raising the depth weight
/// by one raises the reward by exactly the meditation depth, the focus
/// weight by the focus level, the quality weight by the quality score, and
/// the base by the minutes (while the reward fits in a `u128`). With every
/// weight zero, there is no reward.
pub proof fn lemma_each_weight_counts_its_own_metric(
    w: RewardWeights,
    m: MeditationMetrics,
    s: MeditationSession,
)
    requires
        w.depth_weight < 255,
        w.focus_weight < 255,
        w.quality_weight < 255,
        w.base_per_minute < u128::MAX,
        s.duration_minutes * (w.base_per_minute + 1) + m.meditation_depth * (w.depth_weight + 1)
            + m.focus_level * (w.focus_weight + 1) + s.brainwave_quality_score * (w.quality_weight
            + 1) <= u128::MAX,
    ensures
        reward_amount(RewardWeights { depth_weight: (w.depth_weight + 1) as u8, ..w }, m, s)
            == reward_amount(w, m, s) + m.meditation_depth,
        reward_amount(RewardWeights { focus_weight: (w.focus_weight + 1) as u8, ..w }, m, s)
            == reward_amount(w, m, s) + m.focus_level,
        reward_amount(RewardWeights { quality_weight: (w.quality_weight + 1) as u8, ..w }, m, s)
            == reward_amount(w, m, s) + s.brainwave_quality_score,
        reward_amount(RewardWeights { base_per_minute: (w.base_per_minute + 1) as u128, ..w }, m, s)
            == reward_amount(w, m, s) + s.duration_minutes,
        reward_amount(
            RewardWeights { base_per_minute: 0, depth_weight: 0, focus_weight: 0, quality_weight: 0 },
            m,
            s,
        ) == 0,
{
    let t = s.duration_minutes as int;
    let dp = m.meditation_depth as int;
    let fc = m.focus_level as int;
    let q = s.brainwave_quality_score as int;
    let bw = w.base_per_minute as int;
    let dw = w.depth_weight as int;
    let fw = w.focus_weight as int;
    let qw = w.quality_weight as int;
    assert(t * bw <= t * (bw + 1) && dp * dw <= dp * (dw + 1) && fc * fw <= fc * (fw + 1) && q * qw
        <= q * (qw + 1) && t * (bw + 1) == t * bw + t && dp * (dw + 1) == dp * dw + dp && fc * (fw
        + 1) == fc * fw + fc && q * (qw + 1) == q * qw + q && t * bw >= 0 && dp * dw >= 0 && fc * fw
        >= 0 && q * qw >= 0) by (nonlinear_arith)
        requires
            t >= 0,
            dp >= 0,
            fc >= 0,
            q >= 0,
            bw >= 0,
            dw >= 0,
            fw >= 0,
            qw >= 0,
    ;
    lemma_reward_is_weighted_sum(w, m, s);
    lemma_reward_is_weighted_sum(RewardWeights { depth_weight: (w.depth_weight + 1) as u8, ..w }, m, s);
    lemma_reward_is_weighted_sum(RewardWeights { focus_weight: (w.focus_weight + 1) as u8, ..w }, m, s);
    lemma_reward_is_weighted_sum(
        RewardWeights { quality_weight: (w.quality_weight + 1) as u8, ..w },
        m,
        s,
    );
    lemma_reward_is_weighted_sum(
        RewardWeights { base_per_minute: (w.base_per_minute + 1) as u128, ..w },
        m,
        s,
    );
    lemma_reward_is_weighted_sum(
        RewardWeights { base_per_minute: 0, depth_weight: 0, focus_weight: 0, quality_weight: 0 },
        m,
        s,
    );
}

} // verus!
