//! Karma: a non-transferable reputation balance per account.
//!
//! Karma is earned by daily check-ins, completed tasks and rewards from other
//! pallets, and spent on merit actions. Every amount spent is added for good
//! to the account's total merit value, from which its merit level follows.
use vstd::prelude::*;
use crate::primitives::{AccountId, BlockNumber, Origin, ensure_signed, sat_mul, saturating_mul_u128, signer};
use crate::storage::{KeyMap, value_or};

verus! {

/// Identifier of a practice task.
pub type TaskId = u64;

/// Karma balances and merit values.
pub type KarmaBalance = u128;

/// A merit action on which karma is spent.
#[derive(Clone, Copy, Debug, PartialEq, Eq, Structural)]
pub enum MeritAction {
    Prayer,
    Incense,
    LightLamp,
    Flower,
    Donation,
    Other(u8),
    /// A memorial or ceremony in the commemoration pallet.
    SocialInteraction,
}

/// Why karma was granted.
#[derive(Clone, Copy, Debug, PartialEq, Eq, Structural)]
pub enum RewardReason {
    DailyCheckin,
    Meditation,
    TaskCompleted,
    CommunityContribution,
    ManualAdjust,
}

/// A record of karma spent on a merit action.
#[derive(Debug)]
pub struct MeritRecord {
    pub id: u64,
    pub who: AccountId,
    pub action: MeritAction,
    pub amount: KarmaBalance,
    pub description: Vec<u8>,
    pub at_block: BlockNumber,
}

/// A merit record with its description as a sequence of bytes.
pub struct MeritRecordView {
    pub id: u64,
    pub who: AccountId,
    pub action: MeritAction,
    pub amount: KarmaBalance,
    pub description: Seq<u8>,
    pub at_block: BlockNumber,
}

impl View for MeritRecord {
    type V = MeritRecordView;

    open spec fn view(&self) -> MeritRecordView {
        MeritRecordView {
            id: self.id,
            who: self.who,
            action: self.action,
            amount: self.amount,
            description: self.description@,
            at_block: self.at_block,
        }
    }
}

impl MeritRecord {
    /// A copy of this record.
    pub fn copy(&self) -> (r: MeritRecord)
        ensures
            r@ == self@,
    {
        let description = self.description.clone();
        assert(description@ =~= self.description@);
        MeritRecord {
            id: self.id,
            who: self.who,
            action: self.action,
            amount: self.amount,
            description,
            at_block: self.at_block,
        }
    }
}

/// The completion of a task.
#[derive(Clone, Copy, Debug, PartialEq, Eq)]
pub struct TaskCompletion {
    pub task_id: TaskId,
    pub at_block: BlockNumber,
}

/// Checks the proof that a task or a meditation was completed.
pub trait MeditationVerifier {
    /// Whether the verifier accepts `proof` for `task_id` from `who`.
    spec fn accepts(who: AccountId, task_id: TaskId, proof: Seq<u8>) -> bool;

    fn verify(who: &AccountId, task_id: TaskId, proof: Vec<u8>) -> (r: bool)
        ensures
            r == Self::accepts(*who, task_id, proof@),
    ;
}

/// A verifier that accepts every proof (for development).
pub struct AlwaysTrueVerifier;

impl MeditationVerifier for AlwaysTrueVerifier {
    open spec fn accepts(who: AccountId, task_id: TaskId, proof: Seq<u8>) -> bool {
        true
    }

    fn verify(who: &AccountId, task_id: TaskId, proof: Vec<u8>) -> (r: bool) {
        true
    }
}

/// Constants of the karma pallet.
pub struct Config {
    /// Karma granted by a check-in, and by a completed task.
    pub base_checkin_reward: KarmaBalance,
    /// The largest multiplier of the check-in reward.
    pub max_consecutive_multiplier: u8,
    /// The fewest blocks between two check-ins of an account.
    pub min_blocks_between_checkins: BlockNumber,
    /// Total merit needed for each merit level, in order.
    pub merit_level_thresholds: Vec<KarmaBalance>,
}

/// Errors of the karma pallet.
#[derive(Clone, Copy, Debug, PartialEq, Eq, Structural)]
pub enum Error {
    InsufficientKarma,
    KarmaTransferNotAllowed,
    InvalidMeritAction,
    AlreadyCheckedIn,
    TaskAlreadyCompleted,
    InvalidTaskProof,
    Overflow,
    ZeroAmount,
    TooFrequent,
    /// The call was not dispatched by the origin it needs.
    BadOrigin,
}

/// Events of the karma pallet.
#[derive(Debug)]
pub enum Event {
    KarmaRewarded(AccountId, KarmaBalance, RewardReason),
    KarmaConsumed(AccountId, KarmaBalance, MeritAction),
    MeritActionPerformed(AccountId, MeritAction, Vec<u8>),
    MeritValueUpdated(AccountId, KarmaBalance, u8),
    DailyCheckin(AccountId, KarmaBalance, u32),
    TaskCompleted(AccountId, TaskId, KarmaBalance),
    LevelUp(AccountId, u8, KarmaBalance),
}

/// Initial balances and merit values.
pub struct GenesisConfig {
    pub initial_karma: Vec<(AccountId, KarmaBalance)>,
    pub initial_merit: Vec<(AccountId, KarmaBalance)>,
}

/// How many thresholds, from the first, `total` reaches before the first
/// one it does not reach.
pub open spec fn thresholds_met(thresholds: Seq<KarmaBalance>, total: KarmaBalance) -> nat
    decreases thresholds.len(),
{
    if thresholds.len() == 0 {
        0
    } else if total >= thresholds[0] {
        1 + thresholds_met(thresholds.drop_first(), total)
    } else {
        0
    }
}

/// The merit level of a total merit value: the thresholds met, at most 255.
pub open spec fn merit_level(thresholds: Seq<KarmaBalance>, total: KarmaBalance) -> u8 {
    if thresholds_met(thresholds, total) >= 255 {
        255
    } else {
        thresholds_met(thresholds, total) as u8
    }
}

proof fn lemma_thresholds_met_exact(thresholds: Seq<KarmaBalance>, total: KarmaBalance, i: int)
    requires
        0 <= i <= thresholds.len(),
        forall|j: int| 0 <= j < i ==> total >= thresholds[j],
        i == thresholds.len() || total < thresholds[i],
    ensures
        thresholds_met(thresholds, total) == i,
    decreases i,
{
    if i > 0 {
        let rest = thresholds.drop_first();
        assert forall|j: int| 0 <= j < i - 1 implies total >= rest[j] by {
            assert(rest[j] == thresholds[j + 1]);
        }
        if i - 1 < rest.len() {
            assert(rest[i - 1] == thresholds[i]);
        }
        lemma_thresholds_met_exact(rest, total, i - 1);
    }
}

/// A larger total merit never meets fewer thresholds.
pub proof fn lemma_thresholds_met_monotonic(
    thresholds: Seq<KarmaBalance>,
    low: KarmaBalance,
    high: KarmaBalance,
)
    requires
        low <= high,
    ensures
        thresholds_met(thresholds, low) <= thresholds_met(thresholds, high),
    decreases thresholds.len(),
{
    if thresholds.len() > 0 && low >= thresholds[0] {
        lemma_thresholds_met_monotonic(thresholds.drop_first(), low, high);
    }
}

/// The level for `total_merit` under `thresholds`.
pub fn level_for(thresholds: &Vec<KarmaBalance>, total_merit: KarmaBalance) -> (r: u8)
    ensures
        r == merit_level(thresholds@, total_merit),
{
    let mut level: u8 = 0;
    let mut i: usize = 0;
    while i < thresholds.len()
        invariant_except_break
            i <= thresholds@.len(),
            forall|j: int| 0 <= j < i ==> total_merit >= thresholds@[j],
            level == (if i >= 255 { 255 } else { i }),
        ensures
            i <= thresholds@.len(),
            forall|j: int| 0 <= j < i ==> total_merit >= thresholds@[j],
            i == thresholds@.len() || total_merit < thresholds@[i as int],
            level == (if i >= 255 { 255 } else { i }),
        decreases thresholds@.len() - i,
    {
        if total_merit >= thresholds[i] {
            level = level.saturating_add(1);
            i = i + 1;
        } else {
            break;
        }
    }
    proof {
        lemma_thresholds_met_exact(thresholds@, total_merit, i as int);
    }
    level
}

/// The most recent merit records of `who`, walking down from `id` and
/// stopping at the first missing record or after `left` records.
pub open spec fn recent_records(
    history: Map<(AccountId, u64), MeritRecordView>,
    who: AccountId,
    id: u64,
    left: u32,
) -> Seq<MeritRecordView>
    decreases id,
{
    if left == 0 || id == 0 {
        Seq::empty()
    } else if history.contains_key((who, (id - 1) as u64)) {
        seq![history[(who, (id - 1) as u64)]] + recent_records(
            history,
            who,
            (id - 1) as u64,
            (left - 1) as u32,
        )
    } else {
        Seq::empty()
    }
}

/// Inserts each pair of `pairs` into `m`, in order.
pub open spec fn insert_all<K, V>(m: Map<K, V>, pairs: Seq<(K, V)>) -> Map<K, V>
    decreases pairs.len(),
{
    if pairs.len() == 0 {
        m
    } else {
        insert_all(m, pairs.drop_last()).insert(pairs.last().0, pairs.last().1)
    }
}

/// Each pair of `pairs`, mapping the account to the level of its merit.
pub open spec fn levels_of_pairs(
    thresholds: Seq<KarmaBalance>,
    pairs: Seq<(AccountId, KarmaBalance)>,
) -> Seq<(AccountId, u8)> {
    pairs.map_values(|p: (AccountId, KarmaBalance)| (p.0, merit_level(thresholds, p.1)))
}

/// The state of the karma pallet.
pub struct KarmaState {
    /// The constants of the pallet.
    pub config: Config,
    /// Karma balance of each account.
    pub balances: Map<AccountId, KarmaBalance>,
    /// Total merit value of each account.
    pub merit: Map<AccountId, KarmaBalance>,
    /// Merit level of each account.
    pub levels: Map<AccountId, u8>,
    /// Block of the last check-in of each account.
    pub checkins: Map<AccountId, BlockNumber>,
    /// Consecutive days of check-ins of each account.
    pub streaks: Map<AccountId, u32>,
    /// Identifier of the next merit record of each account.
    pub next_record_ids: Map<AccountId, u64>,
    /// Merit records, by account and record identifier.
    pub history: Map<(AccountId, u64), MeritRecordView>,
    /// Completed tasks, by account and task identifier.
    pub tasks: Map<(AccountId, TaskId), TaskCompletion>,
    /// Events deposited, oldest first.
    pub events: Seq<Event>,
}

/// Karma balance of `who` (zero when never set).
pub open spec fn karma_of(s: KarmaState, who: AccountId) -> KarmaBalance {
    value_or(s.balances, who, 0)
}

/// Total merit value of `who`.
pub open spec fn merit_of(s: KarmaState, who: AccountId) -> KarmaBalance {
    value_or(s.merit, who, 0)
}

/// Merit level of `who`.
pub open spec fn level_of(s: KarmaState, who: AccountId) -> u8 {
    value_or(s.levels, who, 0)
}

/// Identifier of the next merit record of `who`.
pub open spec fn next_record_id_of(s: KarmaState, who: AccountId) -> u64 {
    value_or(s.next_record_ids, who, 0)
}

/// Consecutive days of check-ins of `who`, as last recorded.
pub open spec fn streak_of(s: KarmaState, who: AccountId) -> u32 {
    value_or(s.streaks, who, 0)
}

/// A check-in of `who` at block `now` continues its streak: its last check-in
/// was fewer than two check-in periods ago.
pub open spec fn continues_streak(s: KarmaState, who: AccountId, now: BlockNumber) -> bool {
    s.checkins.contains_key(who) && now.saturating_sub(s.checkins[who]) < 2 * (
    s.config.min_blocks_between_checkins as int)
}

/// The streak after a check-in of `who` at block `now`: one more day when it
/// continues, and otherwise a first day again.
pub open spec fn streak_after(s: KarmaState, who: AccountId, now: BlockNumber) -> u32 {
    if continues_streak(s, who, now) {
        streak_of(s, who).saturating_add(1)
    } else {
        1
    }
}

/// The reward of a daily check-in: the base reward times the streak, the
/// multiplier capped by the largest multiplier.
pub open spec fn checkin_reward(base: KarmaBalance, max_multiplier: u8, streak: u32) -> KarmaBalance {
    sat_mul(base, if streak < max_multiplier { streak as u128 } else { max_multiplier as u128 })
}

/// A check-in of `who` at block `now` comes too soon after its last one.
pub open spec fn checkin_too_soon(s: KarmaState, who: AccountId, now: BlockNumber) -> bool {
    s.checkins.contains_key(who) && now.saturating_sub(s.checkins[who])
        < s.config.min_blocks_between_checkins
}

/// `s` after `who` checked in at block `now`, on day `streak` of its
/// streak, receiving `reward`.
pub open spec fn checked_in(
    s: KarmaState,
    who: AccountId,
    reward: KarmaBalance,
    now: BlockNumber,
    streak: u32,
) -> KarmaState {
    KarmaState {
        balances: s.balances.insert(who, karma_of(s, who).saturating_add(reward)),
        checkins: s.checkins.insert(who, now),
        streaks: s.streaks.insert(who, streak),
        events: s.events.push(Event::KarmaRewarded(who, reward, RewardReason::DailyCheckin)).push(
            Event::DailyCheckin(who, reward, streak),
        ),
        ..s
    }
}

/// `s` after `who` completed task `task_id` at block `now`, receiving `reward`.
pub open spec fn task_completed(
    s: KarmaState,
    who: AccountId,
    task_id: TaskId,
    reward: KarmaBalance,
    now: BlockNumber,
) -> KarmaState {
    KarmaState {
        balances: s.balances.insert(who, karma_of(s, who).saturating_add(reward)),
        tasks: s.tasks.insert((who, task_id), TaskCompletion { task_id, at_block: now }),
        events: s.events.push(Event::KarmaRewarded(who, reward, RewardReason::TaskCompleted)).push(
            Event::TaskCompleted(who, task_id, reward),
        ),
        ..s
    }
}

/// `s` after `who` received `amount` karma for `reason`.
pub open spec fn rewarded(
    s: KarmaState,
    who: AccountId,
    amount: KarmaBalance,
    reason: RewardReason,
) -> KarmaState {
    KarmaState {
        balances: s.balances.insert(who, karma_of(s, who).saturating_add(amount)),
        events: s.events.push(Event::KarmaRewarded(who, amount, reason)),
        ..s
    }
}

/// The events of spending `amount` on `action`, reaching merit `new_merit`
/// and level `new_level` from level `prev_level`.
pub open spec fn consumption_events(
    who: AccountId,
    amount: KarmaBalance,
    action: MeritAction,
    description: Vec<u8>,
    new_merit: KarmaBalance,
    new_level: u8,
    prev_level: u8,
) -> Seq<Event> {
    seq![
        Event::KarmaConsumed(who, amount, action),
        Event::MeritActionPerformed(who, action, description),
        Event::MeritValueUpdated(who, new_merit, new_level),
    ] + if new_level > prev_level {
        seq![Event::LevelUp(who, new_level, new_merit)]
    } else {
        Seq::empty()
    }
}

/// `s` after `who` spent `amount` karma, which it holds, on `action` at block `now`.
pub open spec fn consumed(
    s: KarmaState,
    thresholds: Seq<KarmaBalance>,
    who: AccountId,
    amount: KarmaBalance,
    action: MeritAction,
    description: Vec<u8>,
    now: BlockNumber,
) -> KarmaState {
    let new_merit = merit_of(s, who).saturating_add(amount);
    let new_level = merit_level(thresholds, new_merit);
    let id = next_record_id_of(s, who);
    KarmaState {
        balances: s.balances.insert(who, (karma_of(s, who) - amount) as u128),
        merit: s.merit.insert(who, new_merit),
        levels: s.levels.insert(who, new_level),
        next_record_ids: s.next_record_ids.insert(who, id.saturating_add(1)),
        history: s.history.insert(
            (who, id),
            MeritRecordView {
                id,
                who,
                action,
                amount,
                description: description@,
                at_block: now,
            },
        ),
        events: s.events + consumption_events(
            who,
            amount,
            action,
            description,
            new_merit,
            new_level,
            level_of(s, who),
        ),
        ..s
    }
}

/// A larger total merit value never has a lower merit level.
pub proof fn lemma_merit_level_monotonic(thresholds: Seq<KarmaBalance>, low: KarmaBalance, high: KarmaBalance)
    requires
        low <= high,
    ensures
        merit_level(thresholds, low) <= merit_level(thresholds, high),
{
    lemma_thresholds_met_monotonic(thresholds, low, high);
}

/// Spending karma moves it into the total merit value: while the merit
/// value does not saturate, balance plus merit of the spender is unchanged,
/// and no other account's balance, merit or level changes (karma is never
/// transferred).
pub proof fn lemma_consumption_conserves_karma(
    s: KarmaState,
    thresholds: Seq<KarmaBalance>,
    who: AccountId,
    amount: KarmaBalance,
    action: MeritAction,
    description: Vec<u8>,
    now: BlockNumber,
)
    requires
        amount <= karma_of(s, who),
        merit_of(s, who) + amount <= u128::MAX,
    ensures
        ({
            let c = consumed(s, thresholds, who, amount, action, description, now);
            &&& karma_of(c, who) + merit_of(c, who) == karma_of(s, who) + merit_of(s, who)
            &&& karma_of(c, who) == karma_of(s, who) - amount
            &&& merit_of(c, who) == merit_of(s, who) + amount
            &&& forall|a: AccountId|
                a != who ==> karma_of(c, a) == karma_of(s, a) && merit_of(c, a) == merit_of(s, a)
                    && level_of(c, a) == level_of(s, a)
        }),
{
}

/// Granting karma raises only the receiver's balance.
pub proof fn lemma_reward_touches_only_receiver(
    s: KarmaState,
    who: AccountId,
    amount: KarmaBalance,
    reason: RewardReason,
)
    ensures
        ({
            let r = rewarded(s, who, amount, reason);
            &&& karma_of(r, who) == karma_of(s, who).saturating_add(amount)
            &&& forall|a: AccountId| a != who ==> karma_of(r, a) == karma_of(s, a)
            &&& r.merit == s.merit
            &&& r.levels == s.levels
        }),
{
}

/// While an account's stored level is at most the level of its merit, as
/// genesis leaves it, spending karma never lowers the level, sets it to the
/// level of the new merit, and keeps that bound; a level-up event is
/// deposited exactly when the level rises.
pub proof fn lemma_merit_level_never_drops(
    s: KarmaState,
    who: AccountId,
    amount: KarmaBalance,
    action: MeritAction,
    description: Vec<u8>,
    now: BlockNumber,
)
    requires
        level_of(s, who) <= merit_level(s.config.merit_level_thresholds@, merit_of(s, who)),
    ensures
        ({
            let th = s.config.merit_level_thresholds@;
            let c = consumed(s, th, who, amount, action, description, now);
            &&& level_of(c, who) >= level_of(s, who)
            &&& level_of(c, who) == merit_level(th, merit_of(c, who))
            &&& (c.events.last() is LevelUp) == (level_of(c, who) > level_of(s, who))
        }),
{
    let th = s.config.merit_level_thresholds@;
    lemma_thresholds_met_monotonic(th, merit_of(s, who), merit_of(s, who).saturating_add(amount));
}

/// The record written by spending karma is the most recent record of the
/// spender, while its record identifiers have not run out.
pub proof fn lemma_new_record_is_most_recent(
    s: KarmaState,
    thresholds: Seq<KarmaBalance>,
    who: AccountId,
    amount: KarmaBalance,
    action: MeritAction,
    description: Vec<u8>,
    now: BlockNumber,
)
    requires
        next_record_id_of(s, who) < u64::MAX,
    ensures
        ({
            let c = consumed(s, thresholds, who, amount, action, description, now);
            let id = next_record_id_of(s, who);
            &&& next_record_id_of(c, who) == id + 1
            &&& recent_records(c.history, who, next_record_id_of(c, who), 1) == seq![
                MeritRecordView { id, who, action, amount, description: description@, at_block: now },
            ]
        }),
{
    let c = consumed(s, thresholds, who, amount, action, description, now);
    let id = next_record_id_of(s, who);
    assert(recent_records(c.history, who, id, 0) =~= Seq::<MeritRecordView>::empty());
    assert(recent_records(c.history, who, (id + 1) as u64, 1) =~= seq![c.history[(who, id)]]);
}

/// Every merit record of an account has an identifier below the account's
/// next record identifier (as in an empty pallet).
pub open spec fn history_below_next(s: KarmaState) -> bool {
    forall|who: AccountId, id: u64|
        #[trigger] s.history.contains_key((who, id)) ==> id < next_record_id_of(s, who)
}

/// Merit records are kept for good: spending karma writes its record under a
/// fresh identifier, every earlier record stays as it was, and every
/// identifier stays below its account's next identifier.
pub proof fn lemma_merit_records_are_kept(
    s: KarmaState,
    thresholds: Seq<KarmaBalance>,
    who: AccountId,
    amount: KarmaBalance,
    action: MeritAction,
    description: Vec<u8>,
    now: BlockNumber,
)
    requires
        history_below_next(s),
        next_record_id_of(s, who) < u64::MAX,
    ensures
        ({
            let c = consumed(s, thresholds, who, amount, action, description, now);
            &&& !s.history.contains_key((who, next_record_id_of(s, who)))
            &&& forall|a: AccountId, id: u64| #[trigger] s.history.contains_key((a, id))
                ==> c.history.contains_key((a, id)) && c.history[(a, id)] == s.history[(a, id)]
            &&& history_below_next(c)
        }),
{
    let c = consumed(s, thresholds, who, amount, action, description, now);
    let next = next_record_id_of(s, who);
    assert forall|a: AccountId, id: u64| #[trigger] c.history.contains_key((a, id)) implies id
        < next_record_id_of(c, a) by {
        if a == who {
            if id != next {
                assert(s.history.contains_key((a, id)));
            }
        } else {
            assert(s.history.contains_key((a, id)));
        }
    }
}

/// After a check-in at block `now`, another check-in of the same account
/// fewer than the configured number of blocks later is refused.
pub proof fn lemma_checkin_rate_limited(
    s: KarmaState,
    who: AccountId,
    reward: KarmaBalance,
    now: BlockNumber,
    streak: u32,
    later: BlockNumber,
)
    requires
        later.saturating_sub(now) < s.config.min_blocks_between_checkins,
    ensures
        checkin_too_soon(checked_in(s, who, reward, now, streak), who, later),
{
}

/// The level of a merit value is how many thresholds, from the first, it
/// reaches before the first it does not reach, at most 255.
pub proof fn lemma_level_counts_reached_thresholds(thresholds: Seq<KarmaBalance>, total: KarmaBalance, i: int)
    requires
        0 <= i <= thresholds.len(),
        forall|j: int| 0 <= j < i ==> total >= thresholds[j],
        i == thresholds.len() || total < thresholds[i],
    ensures
        merit_level(thresholds, total) == (if i >= 255 { 255 } else { i }),
{
    lemma_thresholds_met_exact(thresholds, total, i);
}

/// The check-in reward is the base reward times the streak while the streak
/// is below the largest multiplier, and times the largest multiplier after
/// (while the product fits in a `u128`).
pub proof fn lemma_checkin_reward_grows_with_streak(base: KarmaBalance, max_multiplier: u8, streak: u32)
    requires
        base * streak <= u128::MAX,
        base * max_multiplier <= u128::MAX,
    ensures
        streak <= max_multiplier ==> checkin_reward(base, max_multiplier, streak) == base * streak,
        streak >= max_multiplier ==> checkin_reward(base, max_multiplier, streak) == base
            * max_multiplier,
{
}

/// A check-in is refused as too soon exactly when it comes fewer than the
/// configured number of blocks after the account's last check-in: a first
/// check-in, or one at least a period later (however much later), is never
/// refused as too soon.
pub proof fn lemma_too_soon_exactly_within_period(s: KarmaState, who: AccountId, now: BlockNumber)
    ensures
        !s.checkins.contains_key(who) ==> !checkin_too_soon(s, who, now),
        s.checkins.contains_key(who) ==> (checkin_too_soon(s, who, now) <==> now.saturating_sub(
            s.checkins[who],
        ) < s.config.min_blocks_between_checkins),
        s.checkins.contains_key(who) && now >= s.checkins[who] + s.config.min_blocks_between_checkins
            ==> !checkin_too_soon(s, who, now),
{
}

/// A check-in after at least one and fewer than two check-in periods
/// continues the streak: its day is one more, and, until the largest
/// multiplier, so is the multiplier of its reward.
pub proof fn lemma_streak_continues(
    s: KarmaState,
    who: AccountId,
    reward: KarmaBalance,
    now: BlockNumber,
    streak: u32,
    later: BlockNumber,
)
    requires
        s.config.min_blocks_between_checkins <= later.saturating_sub(now) < 2 * (
        s.config.min_blocks_between_checkins as int),
    ensures
        ({
            let c = checked_in(s, who, reward, now, streak);
            &&& !checkin_too_soon(c, who, later)
            &&& streak_after(c, who, later) == streak.saturating_add(1)
        }),
{
}

/// A check-in two or more periods after the last one starts the streak
/// again, at its first day.
pub proof fn lemma_missed_day_resets_streak(
    s: KarmaState,
    who: AccountId,
    reward: KarmaBalance,
    now: BlockNumber,
    streak: u32,
    later: BlockNumber,
)
    requires
        later.saturating_sub(now) >= 2 * (s.config.min_blocks_between_checkins as int),
    ensures
        streak_after(checked_in(s, who, reward, now, streak), who, later) == 1,
{
}

/// A completed task is recorded, so completing it again is refused.
pub proof fn lemma_task_completed_once(
    s: KarmaState,
    who: AccountId,
    task_id: TaskId,
    reward: KarmaBalance,
    now: BlockNumber,
)
    ensures
        task_completed(s, who, task_id, reward, now).tasks.contains_key((who, task_id)),
        task_completed(s, who, task_id, reward, now).tasks[(who, task_id)] == (TaskCompletion {
            task_id,
            at_block: now,
        }),
{
}

/// The karma pallet: its constants and its storage.
pub struct Pallet {
    config: Config,
    karma_balances: KeyMap<AccountId, KarmaBalance>,
    total_merit_value: KeyMap<AccountId, KarmaBalance>,
    user_merit_level: KeyMap<AccountId, u8>,
    daily_checkins: KeyMap<AccountId, BlockNumber>,
    consecutive_days: KeyMap<AccountId, u32>,
    next_merit_record_id: KeyMap<AccountId, u64>,
    merit_consumption_history: KeyMap<(AccountId, u64), MeritRecord>,
    completed_tasks: KeyMap<(AccountId, TaskId), TaskCompletion>,
    events: Vec<Event>,
}

impl View for Pallet {
    type V = KarmaState;

    closed spec fn view(&self) -> KarmaState {
        KarmaState {
            config: self.config,
            balances: self.karma_balances@,
            merit: self.total_merit_value@,
            levels: self.user_merit_level@,
            checkins: self.daily_checkins@,
            streaks: self.consecutive_days@,
            next_record_ids: self.next_merit_record_id@,
            history: self.merit_consumption_history@.map_values(|r: MeritRecord| r@),
            tasks: self.completed_tasks@,
            events: self.events@,
        }
    }
}

impl Pallet {
    /// The storage is well formed.
    pub closed spec fn wf(&self) -> bool {
        &&& self.karma_balances.wf()
        &&& self.total_merit_value.wf()
        &&& self.user_merit_level.wf()
        &&& self.daily_checkins.wf()
        &&& self.consecutive_days.wf()
        &&& self.next_merit_record_id.wf()
        &&& self.merit_consumption_history.wf()
        &&& self.completed_tasks.wf()
    }

    /// The constants of the pallet.
    pub open spec fn config(&self) -> Config {
        self@.config
    }

    /// Thresholds of the merit levels.
    pub open spec fn thresholds(&self) -> Seq<KarmaBalance> {
        self@.config.merit_level_thresholds@
    }

    /// A pallet with empty storage.
    pub fn new(config: Config) -> (p: Pallet)
        ensures
            p.wf(),
            p.config() == config,
            p.thresholds() == config.merit_level_thresholds@,
            p@.balances == Map::<AccountId, KarmaBalance>::empty(),
            p@.merit == Map::<AccountId, KarmaBalance>::empty(),
            p@.levels == Map::<AccountId, u8>::empty(),
            p@.checkins == Map::<AccountId, BlockNumber>::empty(),
            p@.streaks == Map::<AccountId, u32>::empty(),
            p@.next_record_ids == Map::<AccountId, u64>::empty(),
            p@.history == Map::<(AccountId, u64), MeritRecordView>::empty(),
            p@.tasks == Map::<(AccountId, TaskId), TaskCompletion>::empty(),
            p@.events == Seq::<Event>::empty(),
            history_below_next(p@),
    {
        let p = Pallet {
            config,
            karma_balances: KeyMap::new(),
            total_merit_value: KeyMap::new(),
            user_merit_level: KeyMap::new(),
            daily_checkins: KeyMap::new(),
            consecutive_days: KeyMap::new(),
            next_merit_record_id: KeyMap::new(),
            merit_consumption_history: KeyMap::new(),
            completed_tasks: KeyMap::new(),
            events: Vec::new(),
        };
        assert(p@.history =~= Map::<(AccountId, u64), MeritRecordView>::empty());
        p
    }

    /// The base check-in reward.
    pub fn base_checkin_reward(&self) -> (r: KarmaBalance)
        ensures
            r == self.config().base_checkin_reward,
    {
        self.config.base_checkin_reward
    }

    /// The merit level of a total merit value: the number of thresholds, from
    /// the first, that it reaches before the first it does not reach (at most 255).
    pub fn calculate_merit_level_internal(&self, total_merit: KarmaBalance) -> (r: u8)
        ensures
            r == merit_level(self.thresholds(), total_merit),
    {
        level_for(&self.config.merit_level_thresholds, total_merit)
    }

    /// Karma balance of `who`.
    pub fn karma_balances(&self, who: &AccountId) -> (r: KarmaBalance)
        requires
            self.wf(),
        ensures
            r == karma_of(self@, *who),
    {
        self.karma_balances.get_or(who, 0)
    }

    /// Total merit value of `who`.
    pub fn total_merit_value(&self, who: &AccountId) -> (r: KarmaBalance)
        requires
            self.wf(),
        ensures
            r == merit_of(self@, *who),
    {
        self.total_merit_value.get_or(who, 0)
    }

    /// Merit level of `who`.
    pub fn user_merit_level(&self, who: &AccountId) -> (r: u8)
        requires
            self.wf(),
        ensures
            r == level_of(self@, *who),
    {
        self.user_merit_level.get_or(who, 0)
    }

    /// Block of the last check-in of `who`.
    pub fn last_checkin_block(&self, who: &AccountId) -> (r: Option<BlockNumber>)
        requires
            self.wf(),
        ensures
            r == (if self@.checkins.contains_key(*who) {
                Some(self@.checkins[*who])
            } else {
                None
            }),
    {
        match self.daily_checkins.get(who) {
            Some(b) => Some(*b),
            None => None,
        }
    }

    /// Consecutive days of check-ins of `who`, as last recorded.
    pub fn consecutive_days(&self, who: &AccountId) -> (r: u32)
        requires
            self.wf(),
        ensures
            r == streak_of(self@, *who),
    {
        self.consecutive_days.get_or(who, 0)
    }

    /// Identifier of the next merit record of `who`.
    pub fn next_merit_record_id(&self, who: &AccountId) -> (r: u64)
        requires
            self.wf(),
        ensures
            r == next_record_id_of(self@, *who),
    {
        self.next_merit_record_id.get_or(who, 0)
    }

    /// The completion of task `task_id` by `who`, if it was completed.
    pub fn completed_task(&self, who: &AccountId, task_id: TaskId) -> (r: Option<TaskCompletion>)
        requires
            self.wf(),
        ensures
            r == (if self@.tasks.contains_key((*who, task_id)) {
                Some(self@.tasks[(*who, task_id)])
            } else {
                None
            }),
    {
        match self.completed_tasks.get(&(*who, task_id)) {
            Some(t) => Some(*t),
            None => None,
        }
    }

    /// The events deposited so far, oldest first.
    pub fn events(&self) -> (r: &Vec<Event>)
        ensures
            r@ == self@.events,
    {
        &self.events
    }

    fn credit(&mut self, who: &AccountId, amount: KarmaBalance)
        requires
            old(self).wf(),
        ensures
            final(self).wf(),
            final(self)@ == (KarmaState {
                balances: old(self)@.balances.insert(
                    *who,
                    karma_of(old(self)@, *who).saturating_add(amount),
                ),
                ..old(self)@
            }),
            final(self).config() == old(self).config(),
    {
        let b = self.karma_balances.get_or(who, 0);
        self.karma_balances.insert(*who, b.saturating_add(amount));
    }

    /// Grants `amount` karma to `who`, without a signature.
    pub fn do_reward_karma(
        &mut self,
        who: &AccountId,
        amount: KarmaBalance,
        reason: RewardReason,
    ) -> (r: Result<(), Error>)
        requires
            old(self).wf(),
        ensures
            final(self).wf(),
            final(self).config() == old(self).config(),
            amount == 0 ==> r == Err::<(), Error>(Error::ZeroAmount) && final(self)@ == old(self)@,
            amount > 0 ==> r is Ok && final(self)@ == rewarded(old(self)@, *who, amount, reason),
    {
        if amount == 0 {
            return Err(Error::ZeroAmount);
        }
        self.credit(who, amount);
        self.events.push(Event::KarmaRewarded(*who, amount, reason));
        Ok(())
    }

    /// Spends `amount` karma of `who` on `action` at block `now`: the karma
    /// moves into the total merit value, the level is recomputed, and a merit
    /// record is written under the next record identifier of `who`.
    pub fn do_consume_karma_for_merit(
        &mut self,
        who: &AccountId,
        amount: KarmaBalance,
        action: MeritAction,
        description: Vec<u8>,
        now: BlockNumber,
    ) -> (r: Result<(), Error>)
        requires
            old(self).wf(),
        ensures
            final(self).wf(),
            final(self).config() == old(self).config(),
            amount == 0 ==> r == Err::<(), Error>(Error::ZeroAmount) && final(self)@ == old(self)@,
            amount > 0 && karma_of(old(self)@, *who) < amount ==> r == Err::<(), Error>(
                Error::InsufficientKarma,
            ) && final(self)@ == old(self)@,
            amount > 0 && karma_of(old(self)@, *who) >= amount ==> r is Ok && final(self)@
                == consumed(
                old(self)@,
                old(self).thresholds(),
                *who,
                amount,
                action,
                description,
                now,
            ),
    {
        if amount == 0 {
            return Err(Error::ZeroAmount);
        }
        let balance = self.karma_balances.get_or(who, 0);
        if balance < amount {
            return Err(Error::InsufficientKarma);
        }
        let ghost s0 = self@;
        self.karma_balances.insert(*who, balance - amount);

        let prev_merit = self.total_merit_value.get_or(who, 0);
        let new_merit = prev_merit.saturating_add(amount);
        self.total_merit_value.insert(*who, new_merit);

        let prev_level = self.user_merit_level.get_or(who, 0);
        let new_level = level_for(&self.config.merit_level_thresholds, new_merit);
        self.user_merit_level.insert(*who, new_level);

        let rec_id = self.next_merit_record_id.get_or(who, 0);
        self.next_merit_record_id.insert(*who, rec_id.saturating_add(1));

        let record_description = description.clone();
        assert(record_description@ =~= description@);
        let rec = MeritRecord {
            id: rec_id,
            who: *who,
            action,
            amount,
            description: record_description,
            at_block: now,
        };
        let ghost rec_view = rec@;
        let ghost old_history = self.merit_consumption_history@;
        self.merit_consumption_history.insert((*who, rec_id), rec);
        assert(self.merit_consumption_history@.map_values(|r: MeritRecord| r@) =~= old_history.map_values(
            |r: MeritRecord| r@,
        ).insert((*who, rec_id), rec_view));

        let ghost ev0 = self.events@;
        self.events.push(Event::KarmaConsumed(*who, amount, action));
        self.events.push(Event::MeritActionPerformed(*who, action, description));
        self.events.push(Event::MeritValueUpdated(*who, new_merit, new_level));
        if new_level > prev_level {
            self.events.push(Event::LevelUp(*who, new_level, new_merit));
        }
        assert(self.events@ =~= ev0 + consumption_events(
            *who,
            amount,
            action,
            description,
            new_merit,
            new_level,
            prev_level,
        ));
        Ok(())
    }

}

impl Pallet {
    /// Daily check-in of the signer at block `now`: grants the base reward
    /// times the days of its streak (at most the largest multiplier), unless
    /// the signer checked in fewer than the configured number of blocks ago.
    /// The streak goes on when the last check-in was fewer than two periods
    /// ago, and starts again otherwise.
    pub fn daily_checkin(&mut self, origin: Origin, now: BlockNumber) -> (r: Result<(), Error>)
        requires
            old(self).wf(),
        ensures
            final(self).wf(),
            final(self).config() == old(self).config(),
            signer(origin) matches Some(who) ==> (r == Err::<(), Error>(Error::AlreadyCheckedIn) <==> (
            old(self)@.checkins.contains_key(who) && now.saturating_sub(old(self)@.checkins[who])
                < old(self).config().min_blocks_between_checkins)),
            match signer(origin) {
                None => r == Err::<(), Error>(Error::BadOrigin) && final(self)@ == old(self)@,
                Some(who) => {
                    let s = old(self)@;
                    let c = old(self).config();
                    let streak = streak_after(s, who, now);
                    let reward = checkin_reward(
                        c.base_checkin_reward,
                        c.max_consecutive_multiplier,
                        streak,
                    );
                    if checkin_too_soon(s, who, now) {
                        r == Err::<(), Error>(Error::AlreadyCheckedIn) && final(self)@ == s
                    } else if reward == 0 {
                        r == Err::<(), Error>(Error::ZeroAmount) && final(self)@ == s
                    } else {
                        r is Ok && final(self)@ == checked_in(s, who, reward, now, streak)
                    }
                },
            },
    {
        let who = match ensure_signed(origin) {
            Some(w) => w,
            None => return Err(Error::BadOrigin),
        };
        let mut consecutive_days: u32 = 1;
        match self.daily_checkins.get(&who) {
            Some(last) => {
                let passed = now.saturating_sub(*last);
                if passed < self.config.min_blocks_between_checkins {
                    return Err(Error::AlreadyCheckedIn);
                }
                if (passed as u64) < 2 * (self.config.min_blocks_between_checkins as u64) {
                    consecutive_days = self.consecutive_days.get_or(&who, 0).saturating_add(1);
                }
            },
            None => {},
        }
        let multiplier: u128 = if consecutive_days < self.config.max_consecutive_multiplier as u32 {
            consecutive_days as u128
        } else {
            self.config.max_consecutive_multiplier as u128
        };
        let reward = saturating_mul_u128(self.config.base_checkin_reward, multiplier);
        if reward == 0 {
            return Err(Error::ZeroAmount);
        }
        self.credit(&who, reward);
        self.daily_checkins.insert(who, now);
        self.consecutive_days.insert(who, consecutive_days);
        self.events.push(Event::KarmaRewarded(who, reward, RewardReason::DailyCheckin));
        self.events.push(Event::DailyCheckin(who, reward, consecutive_days));
        Ok(())
    }

    /// Completion of task `task_id` by the signer at block `now`: once the
    /// verifier `V` accepts `proof`, grants the base reward and records the
    /// task as completed. A task is completed at most once per account.
    pub fn complete_meditation_task<V: MeditationVerifier>(
        &mut self,
        origin: Origin,
        task_id: TaskId,
        proof: Vec<u8>,
        now: BlockNumber,
    ) -> (r: Result<(), Error>)
        requires
            old(self).wf(),
        ensures
            final(self).wf(),
            final(self).config() == old(self).config(),
            match signer(origin) {
                None => r == Err::<(), Error>(Error::BadOrigin) && final(self)@ == old(self)@,
                Some(who) => {
                    let s = old(self)@;
                    let reward = old(self).config().base_checkin_reward;
                    if s.tasks.contains_key((who, task_id)) {
                        r == Err::<(), Error>(Error::TaskAlreadyCompleted) && final(self)@ == s
                    } else if !V::accepts(who, task_id, proof@) {
                        r == Err::<(), Error>(Error::InvalidTaskProof) && final(self)@ == s
                    } else if reward == 0 {
                        r == Err::<(), Error>(Error::ZeroAmount) && final(self)@ == s
                    } else {
                        r is Ok && final(self)@ == task_completed(s, who, task_id, reward, now)
                    }
                },
            },
    {
        let who = match ensure_signed(origin) {
            Some(w) => w,
            None => return Err(Error::BadOrigin),
        };
        if self.completed_tasks.contains_key(&(who, task_id)) {
            return Err(Error::TaskAlreadyCompleted);
        }
        if !V::verify(&who, task_id, proof) {
            return Err(Error::InvalidTaskProof);
        }
        let reward = self.config.base_checkin_reward;
        if reward == 0 {
            return Err(Error::ZeroAmount);
        }
        self.credit(&who, reward);
        self.completed_tasks.insert((who, task_id), TaskCompletion { task_id, at_block: now });
        self.events.push(Event::KarmaRewarded(who, reward, RewardReason::TaskCompleted));
        self.events.push(Event::TaskCompleted(who, task_id, reward));
        Ok(())
    }

    /// The signer spends `karma_amount` karma on `action` at block `now`.
    pub fn perform_merit_action(
        &mut self,
        origin: Origin,
        action: MeritAction,
        karma_amount: KarmaBalance,
        description: Vec<u8>,
        now: BlockNumber,
    ) -> (r: Result<(), Error>)
        requires
            old(self).wf(),
        ensures
            final(self).wf(),
            final(self).config() == old(self).config(),
            match signer(origin) {
                None => r == Err::<(), Error>(Error::BadOrigin) && final(self)@ == old(self)@,
                Some(who) => {
                    let s = old(self)@;
                    if karma_amount == 0 {
                        r == Err::<(), Error>(Error::ZeroAmount) && final(self)@ == s
                    } else if karma_of(s, who) < karma_amount {
                        r == Err::<(), Error>(Error::InsufficientKarma) && final(self)@ == s
                    } else {
                        r is Ok && final(self)@ == consumed(
                            s,
                            old(self).thresholds(),
                            who,
                            karma_amount,
                            action,
                            description,
                            now,
                        )
                    }
                },
            },
    {
        let who = match ensure_signed(origin) {
            Some(w) => w,
            None => return Err(Error::BadOrigin),
        };
        self.do_consume_karma_for_merit(&who, karma_amount, action, description, now)
    }

    /// The most recent merit records of `who`, newest first: at most `count`
    /// of them, walking down from the newest identifier and stopping at the
    /// first identifier with no record.
    pub fn get_recent_merit_records(&self, who: &AccountId, count: u32) -> (r: Vec<MeritRecord>)
        requires
            self.wf(),
        ensures
            r@.map_values(|m: MeritRecord| m@) == recent_records(
                self@.history,
                *who,
                next_record_id_of(self@, *who),
                count,
            ),
    {
        let mut res: Vec<MeritRecord> = Vec::new();
        let mut left = count;
        let mut id = self.next_merit_record_id.get_or(who, 0);
        let ghost full = recent_records(self@.history, *who, id, count);
        while left > 0 && id > 0
            invariant_except_break
                self.wf(),
                res@.map_values(|m: MeritRecord| m@) + recent_records(self@.history, *who, id, left)
                    == full,
            ensures
                res@.map_values(|m: MeritRecord| m@) == full,
            decreases id,
        {
            id = id - 1;
            match self.merit_consumption_history.get(&(*who, id)) {
                Some(rec) => {
                    assert(self@.history.contains_key((*who, id)));
                    let c = rec.copy();
                    let ghost before = res@.map_values(|m: MeritRecord| m@);
                    res.push(c);
                    assert(res@.map_values(|m: MeritRecord| m@) =~= before.push(c@));
                    left = left - 1;
                },
                None => {
                    assert(!self@.history.contains_key((*who, id)));
                    assert(recent_records(self@.history, *who, (id + 1) as u64, (left) as u32)
                        =~= Seq::<MeritRecordView>::empty());
                    assert(res@.map_values(|m: MeritRecord| m@) =~= full);
                    break;
                },
            }
        }
        res
    }
}

/// What the karma pallet offers other pallets.
pub trait KarmaProvider {
    /// The state behind the provider.
    spec fn provided(&self) -> KarmaState;

    /// The provider's storage is well formed.
    spec fn provider_wf(&self) -> bool;

    /// The merit level thresholds of the provider.
    spec fn provider_thresholds(&self) -> Seq<KarmaBalance>;

    /// Karma balance of `who`.
    fn karma_balance(&self, who: &AccountId) -> (r: KarmaBalance)
        requires
            self.provider_wf(),
        ensures
            r == karma_of(self.provided(), *who),
    ;

    /// Grants `amount` karma to `who`.
    fn reward_karma(&mut self, who: &AccountId, amount: KarmaBalance, reason: RewardReason) -> (r:
        Result<(), Error>)
        requires
            old(self).provider_wf(),
        ensures
            final(self).provider_wf(),
            final(self).provider_thresholds() == old(self).provider_thresholds(),
            amount == 0 ==> r == Err::<(), Error>(Error::ZeroAmount) && final(self).provided()
                == old(self).provided(),
            amount > 0 ==> r is Ok && final(self).provided() == rewarded(
                old(self).provided(),
                *who,
                amount,
                reason,
            ),
    ;

    /// Spends `amount` karma of `who` on `action` at block `now`, with no description.
    fn consume_karma_for_merit(
        &mut self,
        who: &AccountId,
        amount: KarmaBalance,
        action: MeritAction,
        now: BlockNumber,
    ) -> (r: Result<(), Error>)
        requires
            old(self).provider_wf(),
        ensures
            final(self).provider_wf(),
            final(self).provider_thresholds() == old(self).provider_thresholds(),
            amount == 0 ==> r == Err::<(), Error>(Error::ZeroAmount) && final(self).provided()
                == old(self).provided(),
            amount > 0 && karma_of(old(self).provided(), *who) < amount ==> r == Err::<(), Error>(
                Error::InsufficientKarma,
            ) && final(self).provided() == old(self).provided(),
            amount > 0 && karma_of(old(self).provided(), *who) >= amount ==> r is Ok && exists|
                d: Vec<u8>,
            |
                d@.len() == 0 && final(self).provided() == consumed(
                    old(self).provided(),
                    old(self).provider_thresholds(),
                    *who,
                    amount,
                    action,
                    d,
                    now,
                ),
    ;

    /// Total merit value of `who`.
    fn total_merit_value(&self, who: &AccountId) -> (r: KarmaBalance)
        requires
            self.provider_wf(),
        ensures
            r == merit_of(self.provided(), *who),
    ;

    /// Merit level of `who`.
    fn merit_level(&self, who: &AccountId) -> (r: u8)
        requires
            self.provider_wf(),
        ensures
            r == level_of(self.provided(), *who),
    ;
}

impl KarmaProvider for Pallet {
    open spec fn provided(&self) -> KarmaState {
        self@
    }

    open spec fn provider_wf(&self) -> bool {
        self.wf()
    }

    open spec fn provider_thresholds(&self) -> Seq<KarmaBalance> {
        self.thresholds()
    }

    fn karma_balance(&self, who: &AccountId) -> (r: KarmaBalance) {
        self.karma_balances(who)
    }

    fn reward_karma(&mut self, who: &AccountId, amount: KarmaBalance, reason: RewardReason) -> (r:
        Result<(), Error>) {
        self.do_reward_karma(who, amount, reason)
    }

    fn consume_karma_for_merit(
        &mut self,
        who: &AccountId,
        amount: KarmaBalance,
        action: MeritAction,
        now: BlockNumber,
    ) -> (r: Result<(), Error>) {
        let d: Vec<u8> = Vec::new();
        let ghost dd = d;
        let r = self.do_consume_karma_for_merit(who, amount, action, d, now);
        proof {
            assert(dd@.len() == 0);
            if amount > 0 && karma_of(old(self)@, *who) >= amount {
                assert(self.provided() == consumed(
                    old(self).provided(),
                    old(self).provider_thresholds(),
                    *who,
                    amount,
                    action,
                    dd,
                    now,
                ));
            }
        }
        r
    }

    fn total_merit_value(&self, who: &AccountId) -> (r: KarmaBalance) {
        Pallet::total_merit_value(self, who)
    }

    fn merit_level(&self, who: &AccountId) -> (r: u8) {
        self.user_merit_level(who)
    }
}

impl GenesisConfig {
    /// No initial balances or merit values.
    pub fn default() -> (g: GenesisConfig)
        ensures
            g.initial_karma@.len() == 0,
            g.initial_merit@.len() == 0,
    {
        GenesisConfig { initial_karma: Vec::new(), initial_merit: Vec::new() }
    }

    /// Writes the initial balances, then the initial merit values with their
    /// levels, into `pallet`, in order (a later entry for an account wins).
    pub fn build(&self, pallet: &mut Pallet)
        requires
            old(pallet).wf(),
        ensures
            final(pallet).wf(),
            final(pallet).config() == old(pallet).config(),
            final(pallet)@ == (KarmaState {
                balances: insert_all(old(pallet)@.balances, self.initial_karma@),
                merit: insert_all(old(pallet)@.merit, self.initial_merit@),
                levels: insert_all(
                    old(pallet)@.levels,
                    levels_of_pairs(old(pallet).thresholds(), self.initial_merit@),
                ),
                ..old(pallet)@
            }),
    {
        let mut i: usize = 0;
        while i < self.initial_karma.len()
            invariant
                pallet.wf(),
                pallet.config() == old(pallet).config(),
                i <= self.initial_karma@.len(),
                pallet@ == (KarmaState {
                    balances: insert_all(
                        old(pallet)@.balances,
                        self.initial_karma@.subrange(0, i as int),
                    ),
                    ..old(pallet)@
                }),
            decreases self.initial_karma@.len() - i,
        {
            let (account, karma) = self.initial_karma[i];
            pallet.karma_balances.insert(account, karma);
            assert(self.initial_karma@.subrange(0, i + 1).drop_last() =~= self.initial_karma@.subrange(
                0,
                i as int,
            ));
            i = i + 1;
        }
        assert(self.initial_karma@.subrange(0, i as int) =~= self.initial_karma@);
        let ghost mid = pallet@;
        let mut j: usize = 0;
        while j < self.initial_merit.len()
            invariant
                pallet.wf(),
                pallet.config() == old(pallet).config(),
                j <= self.initial_merit@.len(),
                pallet@ == (KarmaState {
                    merit: insert_all(mid.merit, self.initial_merit@.subrange(0, j as int)),
                    levels: insert_all(
                        mid.levels,
                        levels_of_pairs(
                            old(pallet).thresholds(),
                            self.initial_merit@.subrange(0, j as int),
                        ),
                    ),
                    ..mid
                }),
            decreases self.initial_merit@.len() - j,
        {
            let (account, merit) = self.initial_merit[j];
            pallet.total_merit_value.insert(account, merit);
            let lvl = pallet.calculate_merit_level_internal(merit);
            pallet.user_merit_level.insert(account, lvl);
            let ghost th = old(pallet).thresholds();
            assert(self.initial_merit@.subrange(0, j + 1).drop_last() =~= self.initial_merit@.subrange(
                0,
                j as int,
            ));
            assert(levels_of_pairs(th, self.initial_merit@.subrange(0, j + 1)).drop_last()
                =~= levels_of_pairs(th, self.initial_merit@.subrange(0, j as int)));
            j = j + 1;
        }
        assert(self.initial_merit@.subrange(0, j as int) =~= self.initial_merit@);
    }
}

} // verus!
