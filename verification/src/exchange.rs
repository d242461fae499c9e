//! Exchange: a signed account trades the native token for karma. The tokens
//! paid are split by basis points between a burn account, the treasury, the
//! paymaster and the share-mining pot; the rounding remainder goes to the
//! treasury.
use vstd::prelude::*;
use crate::karma;
use crate::paymaster;
use crate::karma::{KarmaProvider, KarmaBalance, RewardReason, rewarded};
use crate::primitives::{
    AccountId,
    Balance,
    Origin,
    Transfer,
    ensure_signed,
    sat_mul,
    saturating_mul_u128,
    signer,
};

verus! {

/// Constants of the exchange pallet.
#[derive(Clone, Copy, Debug)]
pub struct Config {
    /// Receives the paymaster's share.
    pub paymaster_account: AccountId,
    /// Receives the burnt share; nobody controls it.
    pub blackhole_account: AccountId,
    /// Receives the treasury's share.
    pub treasury_account: AccountId,
    /// Karma granted per token.
    pub exchange_rate: u128,
    /// Share burnt, in basis points.
    pub burn_bps: u32,
    /// Share of the treasury, in basis points.
    pub treasury_bps: u32,
    /// Share of the paymaster, in basis points.
    pub paymaster_bps: u32,
    /// The whole, in basis points.
    pub bps_denominator: u32,
    /// Share of the share-mining pot, in basis points.
    pub share_mining_bps: u32,
    /// Receives the share-mining share.
    pub share_mining_account: AccountId,
}

/// Events of the exchange pallet.
#[derive(Clone, Copy, Debug)]
pub enum Event {
    /// An exchange: account, tokens paid, karma granted, then the tokens
    /// burnt, sent to the treasury, to the paymaster and to the share-mining pot.
    Exchanged(AccountId, u128, KarmaBalance, u128, u128, u128, u128),
}

/// Errors of the exchange pallet.
#[derive(Clone, Copy, Debug, PartialEq, Eq, Structural)]
pub enum Error {
    ZeroAmount,
    /// The basis points of the four shares do not add up to the whole.
    InvalidBps,
    TransferFailed,
    KarmaMintFailed,
    /// The paymaster refused the deposit into its system pool.
    PaymasterDepositFailed,
    /// The call was not signed.
    BadOrigin,
}

/// How an exchange splits the tokens paid, and the karma it grants. Only
/// `exchange` makes one.
#[derive(Clone, Copy, Debug)]
pub struct ExchangePlan {
    who: AccountId,
    amount: u128,
    burn: u128,
    treasury_total: u128,
    paymaster: u128,
    share_mining: u128,
    karma_out: KarmaBalance,
    transfers: [Transfer; 4],
}

/// The contents of an exchange plan.
pub struct ExchangePlanView {
    pub who: AccountId,
    pub amount: u128,
    pub burn: u128,
    pub treasury_total: u128,
    pub paymaster: u128,
    pub share_mining: u128,
    pub karma_out: KarmaBalance,
    /// The transfers to make, in order: burn, treasury, paymaster, share-mining.
    pub transfers: Seq<Transfer>,
}

impl View for ExchangePlan {
    type V = ExchangePlanView;

    closed spec fn view(&self) -> ExchangePlanView {
        ExchangePlanView {
            who: self.who,
            amount: self.amount,
            burn: self.burn,
            treasury_total: self.treasury_total,
            paymaster: self.paymaster,
            share_mining: self.share_mining,
            karma_out: self.karma_out,
            transfers: self.transfers@,
        }
    }
}

impl ExchangePlan {
    /// The account that pays.
    pub fn who(&self) -> (r: AccountId)
        ensures
            r == self@.who,
    {
        self.who
    }

    /// The tokens paid.
    pub fn amount(&self) -> (r: u128)
        ensures
            r == self@.amount,
    {
        self.amount
    }

    /// The tokens burnt.
    pub fn burn(&self) -> (r: u128)
        ensures
            r == self@.burn,
    {
        self.burn
    }

    /// The tokens the treasury receives, rounding remainder included.
    pub fn treasury_total(&self) -> (r: u128)
        ensures
            r == self@.treasury_total,
    {
        self.treasury_total
    }

    /// The tokens the paymaster receives into its system pool.
    pub fn paymaster(&self) -> (r: u128)
        ensures
            r == self@.paymaster,
    {
        self.paymaster
    }

    /// The tokens the share-mining pot receives.
    pub fn share_mining(&self) -> (r: u128)
        ensures
            r == self@.share_mining,
    {
        self.share_mining
    }

    /// The karma granted.
    pub fn karma_out(&self) -> (r: KarmaBalance)
        ensures
            r == self@.karma_out,
    {
        self.karma_out
    }

    /// The transfers to make, in order: burn, treasury, paymaster, share-mining.
    pub fn transfers(&self) -> (r: [Transfer; 4])
        ensures
            r@ == self@.transfers,
    {
        self.transfers
    }
}

/// The four basis points added with saturation.
pub open spec fn bps_sum(c: Config) -> u32 {
    c.burn_bps.saturating_add(c.treasury_bps).saturating_add(c.paymaster_bps).saturating_add(
        c.share_mining_bps,
    )
}

/// The share of `amount` for `bps` basis points, rounded down.
pub open spec fn share(amount: u128, bps: u32, denominator: u32) -> u128 {
    (sat_mul(amount, bps as u128) / (denominator as u128)) as u128
}

/// The treasury's share plus what rounding left over.
pub open spec fn treasury_total(c: Config, amount: u128) -> u128 {
    let d = c.bps_denominator;
    let burn = share(amount, c.burn_bps, d);
    let treasury = share(amount, c.treasury_bps, d);
    let paymaster = share(amount, c.paymaster_bps, d);
    let share_mining = share(amount, c.share_mining_bps, d);
    let allocated = burn.saturating_add(treasury).saturating_add(paymaster).saturating_add(
        share_mining,
    );
    treasury.saturating_add(amount.saturating_sub(allocated))
}

/// The plan describes exchanging `amount` of `who` under `c`.
pub open spec fn plan_of(p: ExchangePlanView, c: Config, who: AccountId, amount: u128) -> bool {
    let d = c.bps_denominator;
    &&& p.who == who
    &&& p.amount == amount
    &&& p.burn == share(amount, c.burn_bps, d)
    &&& p.treasury_total == treasury_total(c, amount)
    &&& p.paymaster == share(amount, c.paymaster_bps, d)
    &&& p.share_mining == share(amount, c.share_mining_bps, d)
    &&& p.karma_out == sat_mul(amount, c.exchange_rate)
    &&& p.transfers.len() == 4
    &&& p.transfers[0] == Transfer { from: who, to: c.blackhole_account, amount: p.burn }
    &&& p.transfers[1] == Transfer { from: who, to: c.treasury_account, amount: p.treasury_total }
    &&& p.transfers[2] == Transfer { from: who, to: c.paymaster_account, amount: p.paymaster }
    &&& p.transfers[3] == Transfer {
        from: who,
        to: c.share_mining_account,
        amount: p.share_mining,
    }
}

/// The exchange pallet: its constants and the events it deposited.
pub struct Pallet {
    config: Config,
    events: Vec<Event>,
}

impl Pallet {
    /// The constants of the pallet.
    pub closed spec fn config(&self) -> Config {
        self.config
    }

    /// The events deposited so far, oldest first.
    pub closed spec fn events(&self) -> Seq<Event> {
        self.events@
    }

    pub fn new(config: Config) -> (p: Pallet)
        ensures
            p.config() == config,
            p.events() == Seq::<Event>::empty(),
    {
        Pallet { config, events: Vec::new() }
    }

    /// The constants of the pallet.
    pub fn constants(&self) -> (c: Config)
        ensures
            c == self.config(),
    {
        self.config
    }

    /// The events deposited so far, oldest first.
    pub fn deposited(&self) -> (r: &Vec<Event>)
        ensures
            r@ == self.events(),
    {
        &self.events
    }

    /// The signer asks to exchange `amount` tokens for karma. When the amount
    /// is positive and the basis points add up to the whole, the plan of the
    /// exchange is returned: the balances pallet is to make its transfers, in
    /// order, before `complete_exchange` grants the karma.
    pub fn exchange(&self, origin: Origin, amount: u128) -> (r: Result<ExchangePlan, Error>)
        requires
            signer(origin) is Some && amount > 0 && bps_sum(self.config())
                == self.config().bps_denominator ==> self.config().bps_denominator != 0,
        ensures
            signer(origin) is None ==> r == Err::<ExchangePlan, Error>(Error::BadOrigin),
            signer(origin) is Some && amount == 0 ==> r == Err::<ExchangePlan, Error>(
                Error::ZeroAmount,
            ),
            signer(origin) is Some && amount > 0 && bps_sum(self.config())
                != self.config().bps_denominator ==> r == Err::<ExchangePlan, Error>(
                Error::InvalidBps,
            ),
            signer(origin) matches Some(who) ==> amount > 0 && bps_sum(self.config())
                == self.config().bps_denominator ==> (r matches Ok(p) && plan_of(
                p@,
                self.config(),
                who,
                amount,
            )),
    {
        let who = match ensure_signed(origin) {
            Some(w) => w,
            None => return Err(Error::BadOrigin),
        };
        if amount == 0 {
            return Err(Error::ZeroAmount);
        }
        let c = self.config;
        let sum = c.burn_bps.saturating_add(c.treasury_bps).saturating_add(
            c.paymaster_bps,
        ).saturating_add(c.share_mining_bps);
        if sum != c.bps_denominator {
            return Err(Error::InvalidBps);
        }
        let denom = c.bps_denominator as u128;
        let burn = saturating_mul_u128(amount, c.burn_bps as u128) / denom;
        let treasury = saturating_mul_u128(amount, c.treasury_bps as u128) / denom;
        let paymaster = saturating_mul_u128(amount, c.paymaster_bps as u128) / denom;
        let share_mining = saturating_mul_u128(amount, c.share_mining_bps as u128) / denom;
        let allocated = burn.saturating_add(treasury).saturating_add(paymaster).saturating_add(
            share_mining,
        );
        let remainder = amount.saturating_sub(allocated);
        let treasury_total = treasury.saturating_add(remainder);
        let karma_out = saturating_mul_u128(amount, c.exchange_rate);
        Ok(
            ExchangePlan {
                who,
                amount,
                burn,
                treasury_total,
                paymaster,
                share_mining,
                karma_out,
                transfers: [
                    Transfer { from: who, to: c.blackhole_account, amount: burn },
                    Transfer { from: who, to: c.treasury_account, amount: treasury_total },
                    Transfer { from: who, to: c.paymaster_account, amount: paymaster },
                    Transfer { from: who, to: c.share_mining_account, amount: share_mining },
                ],
            },
        )
    }

    /// Finishes an exchange once the balances pallet made (`transferred`) or
    /// failed to make its transfers: grants the karma, credits the
    /// paymaster's share to its system pool, and records the exchange. When
    /// it fails, the transfers are to be undone, as the chain
    /// discards what a failed call changed.
    pub fn complete_exchange(
        &mut self,
        karma: &mut karma::Pallet,
        paymaster: &mut paymaster::Pallet,
        plan: &ExchangePlan,
        transferred: bool,
    ) -> (r: Result<(), Error>)
        requires
            old(karma).wf(),
        ensures
            final(karma).wf(),
            final(karma).config() == old(karma).config(),
            final(paymaster).config() == old(paymaster).config(),
            final(self).config() == old(self).config(),
            !transferred || plan@.karma_out == 0 ==> final(karma)@ == old(karma)@,
            !transferred || plan@.karma_out == 0 ==> final(paymaster)@ == old(paymaster)@,
            !transferred || plan@.karma_out == 0 ==> final(self).events() == old(self).events(),
            !transferred ==> r == Err::<(), Error>(Error::TransferFailed),
            transferred && plan@.karma_out == 0 ==> r == Err::<(), Error>(Error::KarmaMintFailed),
            transferred && plan@.karma_out > 0 ==> ({
                let p = plan@;
                let pool = old(paymaster)@.system_pool.saturating_add(p.paymaster);
                &&& r is Ok
                &&& final(karma)@ == rewarded(
                    old(karma)@,
                    p.who,
                    p.karma_out,
                    RewardReason::ManualAdjust,
                )
                &&& final(paymaster)@ == (paymaster::PaymasterState {
                    system_pool: pool,
                    events: old(paymaster)@.events.push(
                        paymaster::Event::SystemPoolIncreased { amount: p.paymaster, new_total: pool },
                    ),
                    ..old(paymaster)@
                })
                &&& final(self).events() == old(self).events().push(
                    Event::Exchanged(
                        p.who,
                        p.amount,
                        p.karma_out,
                        p.burn,
                        p.treasury_total,
                        p.paymaster,
                        p.share_mining,
                    ),
                )
            }),
    {
        if !transferred {
            return Err(Error::TransferFailed);
        }
        match karma.reward_karma(&plan.who, plan.karma_out, RewardReason::ManualAdjust) {
            Ok(()) => {},
            Err(_) => return Err(Error::KarmaMintFailed),
        }
        match paymaster.increase_system_pool(plan.paymaster) {
            Ok(()) => {},
            Err(_) => return Err(Error::PaymasterDepositFailed),
        }
        self.events.push(
            Event::Exchanged(
                plan.who,
                plan.amount,
                plan.karma_out,
                plan.burn,
                plan.treasury_total,
                plan.paymaster,
                plan.share_mining,
            ),
        );
        Ok(())
    }
}

/// The share of a part of the basis points is at most that part of the
/// amount, also when the product saturates.
proof fn lemma_share_at_most_part(amount: u128, bps: u32, d: u32)
    requires
        d > 0,
    ensures
        share(amount, bps, d) as int * (d as int) <= amount as int * (bps as int),
{
    let m = sat_mul(amount, bps as u128) as int;
    let dd = d as int;
    assert(m <= amount as int * (bps as int));
    assert((m / dd) * dd <= m) by (nonlinear_arith)
        requires
            dd > 0,
            m >= 0,
    ;
}

/// When the four basis points add up (as integers) to a positive whole, the
/// four shares the exchange sends out add up to exactly the amount paid: the
/// treasury takes what rounding leaves over.
pub proof fn lemma_exchange_conserves_tokens(c: Config, amount: u128)
    requires
        c.bps_denominator > 0,
        c.burn_bps + c.treasury_bps + c.paymaster_bps + c.share_mining_bps == c.bps_denominator,
    ensures
        bps_sum(c) == c.bps_denominator,
        share(amount, c.burn_bps, c.bps_denominator) + treasury_total(c, amount) + share(
            amount,
            c.paymaster_bps,
            c.bps_denominator,
        ) + share(amount, c.share_mining_bps, c.bps_denominator) == amount,
{
    let d = c.bps_denominator;
    lemma_share_at_most_part(amount, c.burn_bps, d);
    lemma_share_at_most_part(amount, c.treasury_bps, d);
    lemma_share_at_most_part(amount, c.paymaster_bps, d);
    lemma_share_at_most_part(amount, c.share_mining_bps, d);
    let s1 = share(amount, c.burn_bps, d) as int;
    let s2 = share(amount, c.treasury_bps, d) as int;
    let s3 = share(amount, c.paymaster_bps, d) as int;
    let s4 = share(amount, c.share_mining_bps, d) as int;
    let a = amount as int;
    let dd = d as int;
    assert((s1 + s2 + s3 + s4) * dd <= a * dd) by (nonlinear_arith)
        requires
            s1 * dd <= a * (c.burn_bps as int),
            s2 * dd <= a * (c.treasury_bps as int),
            s3 * dd <= a * (c.paymaster_bps as int),
            s4 * dd <= a * (c.share_mining_bps as int),
            c.burn_bps as int + c.treasury_bps as int + c.paymaster_bps as int
                + c.share_mining_bps as int == dd,
    ;
    assert(s1 + s2 + s3 + s4 <= a) by (nonlinear_arith)
        requires
            (s1 + s2 + s3 + s4) * dd <= a * dd,
            dd > 0,
    ;
}

/// When nothing saturates, each share is its part of the amount rounded
/// down, and the treasury takes its own share plus what rounding left over,
/// which is less than one unit per share.
pub proof fn lemma_treasury_takes_remainder(c: Config, amount: u128)
    requires
        c.bps_denominator > 0,
        c.burn_bps + c.treasury_bps + c.paymaster_bps + c.share_mining_bps == c.bps_denominator,
        amount * c.bps_denominator <= u128::MAX,
    ensures
        share(amount, c.burn_bps, c.bps_denominator) == amount * c.burn_bps / c.bps_denominator as int,
        share(amount, c.paymaster_bps, c.bps_denominator) == amount * c.paymaster_bps
            / c.bps_denominator as int,
        share(amount, c.share_mining_bps, c.bps_denominator) == amount * c.share_mining_bps
            / c.bps_denominator as int,
        amount * c.treasury_bps / c.bps_denominator as int <= treasury_total(c, amount),
        treasury_total(c, amount) < amount * c.treasury_bps / c.bps_denominator as int + 4,
{
    lemma_exchange_conserves_tokens(c, amount);
    let a = amount as int;
    let d = c.bps_denominator as int;
    let b1 = c.burn_bps as int;
    let b2 = c.treasury_bps as int;
    let b3 = c.paymaster_bps as int;
    let b4 = c.share_mining_bps as int;
    assert(a * b1 <= a * d && a * b2 <= a * d && a * b3 <= a * d && a * b4 <= a * d) by (nonlinear_arith)
        requires
            a >= 0,
            0 <= b1 <= d,
            0 <= b2 <= d,
            0 <= b3 <= d,
            0 <= b4 <= d,
    ;
    let s1 = a * b1 / d;
    let s2 = a * b2 / d;
    let s3 = a * b3 / d;
    let s4 = a * b4 / d;
    assert(s1 + s2 + s3 + s4 > a - 4) by (nonlinear_arith)
        requires
            d > 0,
            a >= 0,
            b1 + b2 + b3 + b4 == d,
            s1 == a * b1 / d,
            s2 == a * b2 / d,
            s3 == a * b3 / d,
            s4 == a * b4 / d,
    {
        assert(s1 * d > a * b1 - d);
        assert(s2 * d > a * b2 - d);
        assert(s3 * d > a * b3 - d);
        assert(s4 * d > a * b4 - d);
        assert((s1 + s2 + s3 + s4) * d > a * (b1 + b2 + b3 + b4) - 4 * d);
    }
}

/// An exchange's plan moves exactly the amount paid out of the payer's
/// account: its four transfers are all from the payer, and add up to it.
pub proof fn lemma_plan_pays_amount(p: ExchangePlanView, c: Config, who: AccountId, amount: u128)
    requires
        plan_of(p, c, who, amount),
        c.bps_denominator > 0,
        c.burn_bps + c.treasury_bps + c.paymaster_bps + c.share_mining_bps == c.bps_denominator,
    ensures
        forall|i: int| 0 <= i < 4 ==> (#[trigger] p.transfers[i]).from == who,
        p.transfers[0].amount + p.transfers[1].amount + p.transfers[2].amount
            + p.transfers[3].amount == amount,
{
    lemma_exchange_conserves_tokens(c, amount);
}

} // verus!
