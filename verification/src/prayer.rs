//! Prayer: a signed account spends karma on a prayer, identified by a digest
//! of its content.
use vstd::prelude::*;
use crate::karma;
use crate::karma::{KarmaBalance, MeritAction, karma_of, consumed};
use crate::primitives::{AccountId, BlockNumber, Origin, ensure_signed, signer};

verus! {

/// Constants of the prayer pallet.
#[derive(Clone, Copy, Debug)]
pub struct Config {
    /// Karma spent on a prayer when the caller names no amount.
    pub default_prayer_cost: KarmaBalance,
}

/// Events of the prayer pallet.
#[derive(Debug)]
pub enum Event {
    /// A prayer: the account, the karma spent, and the content digest.
    Prayed(AccountId, KarmaBalance, Vec<u8>),
}

/// Errors of the prayer pallet.
#[derive(Clone, Copy, Debug, PartialEq, Eq, Structural)]
pub enum Error {
    /// The content digest is empty.
    EmptyPrayer,
    /// The karma pallet refused to spend the karma.
    ConsumeFailed,
    /// The call was not signed.
    BadOrigin,
}

/// Karma spent on a prayer: `amount`, or the default cost when it is `None`.
pub open spec fn prayer_cost(config: Config, amount: Option<KarmaBalance>) -> KarmaBalance {
    match amount {
        Some(a) => a,
        None => config.default_prayer_cost,
    }
}

/// The prayer pallet: its constants and the events it deposited.
pub struct Pallet {
    config: Config,
    events: Vec<Event>,
}

impl Pallet {
    pub fn new(config: Config) -> (p: Pallet)
        ensures
            p.config() == config,
            p.events() == Seq::<Event>::empty(),
    {
        Pallet { config, events: Vec::new() }
    }

    /// The constants of the pallet.
    pub closed spec fn config(&self) -> Config {
        self.config
    }

    /// The events deposited so far, oldest first.
    pub closed spec fn events(&self) -> Seq<Event> {
        self.events@
    }

    /// The events deposited so far, oldest first.
    pub fn deposited(&self) -> (r: &Vec<Event>)
        ensures
            r@ == self.events(),
    {
        &self.events
    }

    /// The signer prays with content digest `content`, spending `amount`
    /// karma, or the default cost when `amount` is `None`, at block `now`.
    pub fn pray(
        &mut self,
        karma: &mut karma::Pallet,
        origin: Origin,
        content: Vec<u8>,
        amount: Option<KarmaBalance>,
        now: BlockNumber,
    ) -> (r: Result<(), Error>)
        requires
            old(karma).wf(),
        ensures
            final(karma).wf(),
            final(karma).config() == old(karma).config(),
            final(self).config() == old(self).config(),
            signer(origin) matches Some(who) ==> r is Ok ==> karma_of(final(karma)@, who) + (
            match amount {
                Some(a) => a,
                None => old(self).config().default_prayer_cost,
            }) == karma_of(old(karma)@, who),
            signer(origin) is None ==> r == Err::<(), Error>(Error::BadOrigin) && final(karma)@
                == old(karma)@ && final(self).events() == old(self).events(),
            signer(origin) is Some && content@.len() == 0 ==> r == Err::<(), Error>(
                Error::EmptyPrayer,
            ) && final(karma)@ == old(karma)@ && final(self).events() == old(self).events(),
            signer(origin) matches Some(who) ==> content@.len() > 0 && (prayer_cost(
                old(self).config(),
                amount,
            ) == 0 || karma_of(old(karma)@, who) < prayer_cost(old(self).config(), amount))
                ==> r == Err::<(), Error>(Error::ConsumeFailed) && final(karma)@ == old(karma)@
                && final(self).events() == old(self).events(),
            signer(origin) matches Some(who) ==> content@.len() > 0 && prayer_cost(
                old(self).config(),
                amount,
            ) > 0 && karma_of(old(karma)@, who) >= prayer_cost(old(self).config(), amount) ==> {
                &&& r is Ok
                &&& exists|d: Vec<u8>|
                    d@.len() == 0 && final(karma)@ == consumed(
                        old(karma)@,
                        old(karma).thresholds(),
                        who,
                        prayer_cost(old(self).config(), amount),
                        MeritAction::Prayer,
                        d,
                        now,
                    )
                &&& final(self).events() == old(self).events().push(
                    Event::Prayed(who, prayer_cost(old(self).config(), amount), content),
                )
            },
    {
        let who = match ensure_signed(origin) {
            Some(w) => w,
            None => return Err(Error::BadOrigin),
        };
        if content.len() == 0 {
            return Err(Error::EmptyPrayer);
        }
        let cost = match amount {
            Some(a) => a,
            None => self.config.default_prayer_cost,
        };
        let no_description: Vec<u8> = Vec::new();
        let ghost d = no_description;
        match karma.do_consume_karma_for_merit(&who, cost, MeritAction::Prayer, no_description, now) {
            Ok(()) => {},
            Err(_) => return Err(Error::ConsumeFailed),
        }
        self.events.push(Event::Prayed(who, cost, content));
        assert(d@.len() == 0);
        Ok(())
    }
}

/// A prayer spends exactly what its caller names, and the default cost only
/// when the caller names nothing: the spender's balance falls by that much,
/// and its merit grows by it (while merit does not saturate).
pub proof fn lemma_prayer_spends_what_is_named(
    c: Config,
    s: karma::KarmaState,
    thresholds: Seq<KarmaBalance>,
    who: AccountId,
    amount: Option<KarmaBalance>,
    d: Vec<u8>,
    now: BlockNumber,
)
    requires
        karma_of(s, who) >= prayer_cost(c, amount),
        karma::merit_of(s, who) + prayer_cost(c, amount) <= u128::MAX,
    ensures
        amount matches Some(a) ==> prayer_cost(c, amount) == a,
        amount is None ==> prayer_cost(c, amount) == c.default_prayer_cost,
        ({
            let f = consumed(s, thresholds, who, prayer_cost(c, amount), MeritAction::Prayer, d, now);
            &&& amount matches Some(a) ==> karma_of(f, who) + a == karma_of(s, who)
            &&& amount matches Some(a) ==> karma::merit_of(f, who) == karma::merit_of(s, who) + a
            &&& amount is None ==> karma_of(f, who) + c.default_prayer_cost == karma_of(s, who)
        }),
{
}

} // verus!
