//! The runtime: the pallets composed, with the constants the chain
//! configures for them.
use vstd::prelude::*;
use crate::commemorate;
use crate::exchange;
use crate::karma;
use crate::meditation;
use crate::karma::{RewardReason, rewarded};
use crate::meditation::{
    MeditationMetrics,
    MeditationSession,
    RewardHook,
    SessionId,
    next_session_id_of,
    stamped,
    submit_error,
    submitted,
};
use crate::paymaster;
use crate::prayer;
use crate::primitives::{AccountId, Moment, Origin, signer};
use crate::reward;
use crate::reward::{hook_grants, reward_amount};

verus! {

/// Base units in one token.
pub const UNIT: u128 = 1_000_000_000_000;

/// The composed pallets.
pub struct Runtime {
    pub karma: karma::Pallet,
    pub prayer: prayer::Pallet,
    pub exchange: exchange::Pallet,
    pub meditation: meditation::Pallet,
    pub reward: reward::Pallet,
    pub paymaster: paymaster::Pallet,
    pub commemorate: commemorate::Pallet,
}

/// The karma constants of the chain: merit level 0 below 1000, then one
/// level more from 1000, 5000, 20000 and 100000.
pub fn karma_config() -> (c: karma::Config)
    ensures
        c.base_checkin_reward == 1000,
        c.max_consecutive_multiplier == 7,
        c.min_blocks_between_checkins == 14400,
        c.merit_level_thresholds@ == seq![1000u128, 5000, 20000, 100000],
{
    let mut thresholds: Vec<u128> = Vec::new();
    thresholds.push(1000);
    thresholds.push(5000);
    thresholds.push(20000);
    thresholds.push(100000);
    assert(thresholds@ =~= seq![1000u128, 5000, 20000, 100000]);
    karma::Config {
        base_checkin_reward: 1000,
        max_consecutive_multiplier: 7,
        min_blocks_between_checkins: 14400,
        merit_level_thresholds: thresholds,
    }
}

/// The exchange constants of the chain; its share-mining pot gets no share.
pub fn exchange_config(share_mining_account: AccountId) -> (c: exchange::Config)
    ensures
        c.blackhole_account@ == filled(0),
        c.treasury_account@ == filled(1),
        c.paymaster_account@ == filled(2),
        c.exchange_rate == 1000,
        c.burn_bps == 2000,
        c.treasury_bps == 7000,
        c.paymaster_bps == 1000,
        c.bps_denominator == 10000,
        c.share_mining_bps == 0,
        c.share_mining_account == share_mining_account,
{
    broadcast use vstd::array::group_array_axioms;

    let c = exchange::Config {
        paymaster_account: [2u8; 32],
        blackhole_account: [0u8; 32],
        treasury_account: [1u8; 32],
        exchange_rate: 1000,
        burn_bps: 2000,
        treasury_bps: 7000,
        paymaster_bps: 1000,
        bps_denominator: 10000,
        share_mining_bps: 0,
        share_mining_account,
    };
    assert(c.blackhole_account@ =~= filled(0));
    assert(c.treasury_account@ =~= filled(1));
    assert(c.paymaster_account@ =~= filled(2));
    c
}

/// The paymaster constants of the chain.
pub fn paymaster_config() -> (c: paymaster::Config)
    ensures
        c.pallet_id@ == seq![112u8, 97, 121, 109, 97, 115, 116, 114],
        c.max_batch_size == 50,
        c.minimum_deposit == 1000 * UNIT,
        c.service_fee_rate == 100,
{
    let id: [u8; 8] = [112u8, 97u8, 121u8, 109u8, 97u8, 115u8, 116u8, 114u8];
    assert(id@ =~= seq![112u8, 97, 121, 109, 97, 115, 116, 114]);
    paymaster::Config {
        pallet_id: id,
        max_batch_size: 50,
        minimum_deposit: 1000 * UNIT,
        service_fee_rate: 100,
    }
}

/// The meditation constants of the chain.
pub fn meditation_config() -> (c: meditation::Config)
    ensures
        c.enable_karma_reward,
        c.base_reward_per_minute == 3,
        c.min_duration_minutes == 5,
        c.min_quality_score == 60,
{
    meditation::Config {
        enable_karma_reward: true,
        base_reward_per_minute: 3,
        min_duration_minutes: 5,
        min_quality_score: 60,
    }
}

/// The commemoration constants.
pub fn commemorate_config() -> (c: commemorate::Config)
    ensures
        c.max_name_length == 100,
        c.max_description_length == 1000,
        c.max_message_length == 500,
        c.max_memorials_per_account == 50,
        c.create_memorial_cost == 100,
        c.base_traditional_cost == 20,
        c.base_modern_cost == 15,
        c.max_ipfs_hash_length == 64,
        c.max_file_name_length == 256,
        c.max_files_per_memorial == 100,
        c.max_files_per_ceremony == 10,
{
    commemorate::Config {
        max_name_length: 100,
        max_description_length: 1000,
        max_message_length: 500,
        max_memorials_per_account: 50,
        create_memorial_cost: 100,
        base_traditional_cost: 20,
        base_modern_cost: 15,
        max_ipfs_hash_length: 64,
        max_file_name_length: 256,
        max_files_per_memorial: 100,
        max_files_per_ceremony: 10,
    }
}

impl Runtime {
    /// Every pallet's storage is well formed.
    pub open spec fn wf(&self) -> bool {
        &&& self.karma.wf()
        &&& self.meditation.wf()
        &&& self.paymaster.wf()
        &&& self.commemorate.wf()
    }

    /// The runtime at genesis, with the chain's constants, `reward` for the
    /// reward pallet and the account of the share-mining pot.
    pub fn new(reward: reward::Config, share_mining_account: AccountId) -> (r: Runtime)
        ensures
            r.wf(),
            r.karma@.balances == Map::<AccountId, u128>::empty(),
            r.meditation@.sessions == Map::<(AccountId, SessionId), MeditationSession>::empty(),
            r.reward.config() == reward,
            r.prayer.config().default_prayer_cost == 100,
            r.karma.config().base_checkin_reward == 1000,
            r.karma.config().max_consecutive_multiplier == 7,
            r.karma.config().min_blocks_between_checkins == 14400,
            r.karma.thresholds() == seq![1000u128, 5000, 20000, 100000],
            r.exchange.config().burn_bps == 2000,
            r.exchange.config().treasury_bps == 7000,
            r.exchange.config().paymaster_bps == 1000,
            r.exchange.config().share_mining_bps == 0,
            r.exchange.config().bps_denominator == 10000,
            r.exchange.config().exchange_rate == 1000,
            r.exchange.config().share_mining_account == share_mining_account,
    {
        Runtime {
            karma: karma::Pallet::new(karma_config()),
            prayer: prayer::Pallet::new(prayer::Config { default_prayer_cost: 100 }),
            exchange: exchange::Pallet::new(exchange_config(share_mining_account)),
            meditation: meditation::Pallet::new(meditation_config()),
            reward: reward::Pallet::new(reward),
            paymaster: paymaster::Pallet::new(paymaster_config()),
            commemorate: commemorate::Pallet::new(commemorate_config()),
        }
    }

    /// The signer submits a meditation session at time `now`; when it is
    /// stored, the reward pallet is told of it.
    pub fn submit_meditation_session(
        &mut self,
        origin: Origin,
        metrics: MeditationMetrics,
        session: MeditationSession,
        now: Moment,
    ) -> (r: Result<SessionId, meditation::Error>)
        requires
            old(self).wf(),
        ensures
            final(self).wf(),
            final(self).karma.config() == old(self).karma.config(),
            final(self).meditation.config() == old(self).meditation.config(),
            final(self).reward.config() == old(self).reward.config(),
            final(self).paymaster@ == old(self).paymaster@,
            final(self).commemorate@ == old(self).commemorate@,
            final(self).prayer.events() == old(self).prayer.events(),
            final(self).exchange.events() == old(self).exchange.events(),
            submit_error(old(self).meditation.config(), origin, session) matches Some(e) ==> r
                == Err::<SessionId, meditation::Error>(e) && final(self).meditation@ == old(
                self).meditation@ && final(self).karma@ == old(self).karma@ && final(
                self).reward.events() == old(self).reward.events(),
            signer(origin) matches Some(who) ==> submit_error(
                old(self).meditation.config(),
                origin,
                session,
            ) is None ==> ({
                let id = next_session_id_of(old(self).meditation@, who);
                let stored = stamped(session, now);
                let amount = reward_amount(old(self).reward.config().reward_weights, metrics, stored);
                let granted = hook_grants(old(self).reward.config(), metrics, stored);
                &&& r == Ok::<SessionId, meditation::Error>(id)
                &&& final(self).meditation@ == submitted(old(self).meditation@, who, session, now)
                &&& granted ==> final(self).karma@ == rewarded(
                    old(self).karma@,
                    who,
                    amount,
                    RewardReason::Meditation,
                ) && final(self).reward.events() == old(self).reward.events().push(
                    reward::Event::RewardGranted(who, id, amount),
                )
                &&& !granted ==> final(self).karma@ == old(self).karma@ && final(
                    self).reward.events() == old(self).reward.events()
            }),
    {
        match self.meditation.submit_session(origin, metrics, session, now) {
            Ok((id, stored)) => {
                let who = match origin {
                    Origin::Signed(w) => w,
                    _ => return Ok(id),
                };
                self.reward.on_session_submitted(&mut self.karma, &who, id, metrics, stored);
                Ok(id)
            },
            Err(e) => Err(e),
        }
    }
}

/// Thirty-two copies of `b`.
pub open spec fn filled(b: u8) -> Seq<u8> {
    Seq::new(32, |i: int| b)
}

} // verus!
