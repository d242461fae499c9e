//! Paymaster: prepaid balances from which proxies pay for the calls they
//! dispatch on behalf of users, plus a service fee; deposit authorizations;
//! and the system pool fed by other pallets.
use vstd::prelude::*;
use bounded_collections::{BoundedVec, ConstU32};
use crate::primitives::{
    AccountId,
    Balance,
    BlockNumber,
    Origin,
    Transfer,
    ensure_signed,
    same_bytes,
    sat_mul,
    saturating_mul_u128,
    signer,
};
use crate::storage::{KeyMap, value_or};

verus! {

#[verifier::external_type_specification]
#[verifier::external_body]
#[verifier::reject_recursive_types(T)]
#[verifier::reject_recursive_types(S)]
pub struct ExBoundedVec<T, S>(BoundedVec<T, S>);

#[verifier::external_type_specification]
#[verifier::external_body]
pub struct ExConstU32<const N: u32>(ConstU32<N>);

/// What a proxy may do for its user.
#[derive(Debug)]
pub enum ProxyPermission {
    All,
    Transfer,
    Governance,
    Custom(Vec<u8>),
}

/// The two permissions are the same kind, with the same bytes for `Custom`.
pub open spec fn same_permission(a: ProxyPermission, b: ProxyPermission) -> bool {
    match (a, b) {
        (ProxyPermission::All, ProxyPermission::All) => true,
        (ProxyPermission::Transfer, ProxyPermission::Transfer) => true,
        (ProxyPermission::Governance, ProxyPermission::Governance) => true,
        (ProxyPermission::Custom(x), ProxyPermission::Custom(y)) => x@ == y@,
        _ => false,
    }
}

impl ProxyPermission {
    /// A copy of this permission.
    pub fn copy(&self) -> (r: ProxyPermission)
        ensures
            same_permission(r, *self),
    {
        match self {
            ProxyPermission::All => ProxyPermission::All,
            ProxyPermission::Transfer => ProxyPermission::Transfer,
            ProxyPermission::Governance => ProxyPermission::Governance,
            ProxyPermission::Custom(v) => {
                let c = v.clone();
                assert(c@ =~= v@);
                ProxyPermission::Custom(c)
            },
        }
    }
}

/// A proxy of a user.
#[derive(Debug)]
pub struct ProxyConfig {
    pub proxy: AccountId,
    pub permission: ProxyPermission,
    /// The largest fee the proxy may charge for one call.
    pub fee_limit: Balance,
    pub enabled: bool,
}

/// A payment made by a third party.
#[derive(Clone, Copy, Debug)]
pub struct ThirdPartyPaymentRecord {
    pub amount: Balance,
    pub block_number: BlockNumber,
    pub timestamp: u64,
}

/// Whether, and up to which amount, a payer may deposit for a beneficiary.
#[derive(Clone, Copy, Debug, PartialEq, Eq, Structural)]
pub struct DepositAuthorization {
    pub max_amount: Option<Balance>,
    pub enabled: bool,
}

/// A fee paid from a prepaid balance.
#[derive(Clone, Copy, Debug)]
pub struct FeeRecord {
    pub amount: Balance,
    pub block_number: BlockNumber,
    pub tx_hash: Option<[u8; 32]>,
}

/// The records held by a fee-record list.
pub uninterp spec fn fee_record_list(v: BoundedVec<FeeRecord, ConstU32<100>>) -> Seq<FeeRecord>;

/// `BoundedVec::new`: a list with no records.
#[verifier::external_body]
fn fee_records_new() -> (v: BoundedVec<FeeRecord, ConstU32<100>>)
    ensures
        fee_record_list(v) == Seq::<FeeRecord>::empty(),
{
    BoundedVec::new()
}

/// What `try_push` hands back: nothing, or the record it refused.
pub type PushOutcome = Result<(), FeeRecord>;

/// `BoundedVec::try_push`, bound 100: appends the record when the list holds
/// fewer than 100 records, and otherwise leaves the list alone and hands the
/// record back.
#[verifier::external_body]
fn fee_records_try_push(
    v: &mut BoundedVec<FeeRecord, ConstU32<100>>,
    record: FeeRecord,
) -> (r: PushOutcome)
    ensures
        r is Ok <==> fee_record_list(*old(v)).len() < 100,
        r is Ok ==> fee_record_list(*final(v)) == fee_record_list(*old(v)).push(record),
        r matches Err(rejected) ==> rejected == record,
        r is Err ==> fee_record_list(*final(v)) == fee_record_list(*old(v)),
{
    v.try_push(record)
}

/// The records of a `BoundedVec`, copied into a `Vec` in order.
#[verifier::external_body]
fn fee_records_to_vec(v: &BoundedVec<FeeRecord, ConstU32<100>>) -> (r: Vec<FeeRecord>)
    ensures
        r@ == fee_record_list(*v),
{
    v.to_vec()
}

/// Constants of the paymaster pallet.
#[derive(Clone, Copy, Debug)]
pub struct Config {
    /// Identifier from which the pallet's account derives.
    pub pallet_id: [u8; 8],
    /// The most calls in one batch.
    pub max_batch_size: u32,
    /// The smallest deposit.
    pub minimum_deposit: Balance,
    /// Service fee in basis points of the estimated fee.
    pub service_fee_rate: u32,
}

/// Events of the paymaster pallet.
#[derive(Debug)]
pub enum Event {
    PrepaidDeposited { user: AccountId, amount: Balance },
    PrepaidWithdrawn { user: AccountId, amount: Balance },
    ProxyAdded { user: AccountId, proxy: AccountId, permission: ProxyPermission },
    ProxyRemoved { user: AccountId, proxy: AccountId },
    ProxyExecuted { user: AccountId, proxy: AccountId, fee: Balance },
    BatchExecuted { user: AccountId, proxy: AccountId, count: u32, total_fee: Balance },
    ServiceFeeCollected { amount: Balance },
    /// The system pool grew by `amount` to `new_total`.
    SystemPoolIncreased { amount: Balance, new_total: Balance },
}

/// Errors of the paymaster pallet.
#[derive(Clone, Copy, Debug, PartialEq, Eq, Structural)]
pub enum Error {
    InsufficientBalance,
    ProxyNotFound,
    ProxyDisabled,
    InsufficientPermission,
    ExceedsFeeLimit,
    TooManyBatchCalls,
    BelowMinimumDeposit,
    ProxyAlreadyExists,
    Overflow,
    NotAuthorized,
    /// The call was not signed.
    BadOrigin,
    /// The call dispatched by a proxy failed, with the error it returned
    /// (as the host numbers the chain's dispatch errors).
    CallFailed(u32),
}

/// A deposit to make: the transfer into the pallet's account, and whose
/// prepaid balance it credits. Only the deposit calls make one.
#[derive(Clone, Copy, Debug)]
pub struct PendingDeposit {
    transfer: Transfer,
    beneficiary: AccountId,
}

/// The contents of a pending deposit.
pub struct PendingDepositView {
    pub transfer: Transfer,
    pub beneficiary: AccountId,
}

impl View for PendingDeposit {
    type V = PendingDepositView;

    closed spec fn view(&self) -> PendingDepositView {
        PendingDepositView { transfer: self.transfer, beneficiary: self.beneficiary }
    }
}

impl PendingDeposit {
    /// The transfer into the pallet's account.
    pub fn transfer(&self) -> (r: Transfer)
        ensures
            r == self@.transfer,
    {
        self.transfer
    }

    /// Whose prepaid balance the deposit credits.
    pub fn beneficiary(&self) -> (r: AccountId)
        ensures
            r == self@.beneficiary,
    {
        self.beneficiary
    }
}

/// A withdrawal to make: the transfer out of the pallet's account. Only
/// `withdraw_prepaid` makes one.
#[derive(Clone, Copy, Debug)]
pub struct PendingWithdrawal {
    transfer: Transfer,
}

impl View for PendingWithdrawal {
    type V = Transfer;

    closed spec fn view(&self) -> Transfer {
        self.transfer
    }
}

impl PendingWithdrawal {
    /// The transfer out of the pallet's account.
    pub fn transfer(&self) -> (r: Transfer)
        ensures
            r == self@,
    {
        self.transfer
    }
}

/// What a proxy was charged before the calls it dispatches for its user.
/// Only the proxy-execution calls make one, and finishing the calls uses it up.
#[derive(Debug)]
pub struct ProxyCharge {
    user: AccountId,
    proxy: AccountId,
    estimated_fee: Balance,
    service_fee: Balance,
    total_fee: Balance,
    fees_before: Balance,
}

/// The contents of a proxy charge.
pub struct ProxyChargeView {
    pub user: AccountId,
    pub proxy: AccountId,
    /// The fee the proxy estimated.
    pub estimated_fee: Balance,
    /// The service fee on top of it.
    pub service_fee: Balance,
    /// Both together, taken from the user's prepaid balance.
    pub total_fee: Balance,
    /// The service fees collected before this charge.
    pub fees_before: Balance,
}

impl View for ProxyCharge {
    type V = ProxyChargeView;

    closed spec fn view(&self) -> ProxyChargeView {
        ProxyChargeView {
            user: self.user,
            proxy: self.proxy,
            estimated_fee: self.estimated_fee,
            service_fee: self.service_fee,
            total_fee: self.total_fee,
            fees_before: self.fees_before,
        }
    }
}

impl ProxyCharge {
    /// The fee the proxy estimated.
    pub fn estimated_fee(&self) -> (r: Balance)
        ensures
            r == self@.estimated_fee,
    {
        self.estimated_fee
    }

    /// The service fee on top of it.
    pub fn service_fee(&self) -> (r: Balance)
        ensures
            r == self@.service_fee,
    {
        self.service_fee
    }

    /// Both together.
    pub fn total_fee(&self) -> (r: Balance)
        ensures
            r == self@.total_fee,
    {
        self.total_fee
    }
}

/// What kind of call a proxy dispatches, as far as permissions tell calls apart.
#[derive(Clone, Copy, Debug, PartialEq, Eq, Structural)]
pub enum CallKind {
    /// A transfer of balance.
    Transfer,
    /// A governance call: a vote, a proposal.
    Governance,
    /// Any other call.
    Other,
}

/// A call a proxy dispatches: its kind, and the name of the pallet it calls.
#[derive(Debug)]
pub struct CallInfo {
    pub kind: CallKind,
    pub pallet: Vec<u8>,
}

/// A call with the pallet's name as a sequence.
pub struct CallInfoView {
    pub kind: CallKind,
    pub pallet: Seq<u8>,
}

impl View for CallInfo {
    type V = CallInfoView;

    open spec fn view(&self) -> CallInfoView {
        CallInfoView { kind: self.kind, pallet: self.pallet@ }
    }
}

/// Whether `permission` lets a proxy dispatch `call`: `All` any call,
/// `Transfer` transfers, `Governance` governance calls, and `Custom` the
/// calls into the pallet it names.
pub open spec fn permits(permission: ProxyPermission, call: CallInfoView) -> bool {
    match permission {
        ProxyPermission::All => true,
        ProxyPermission::Transfer => call.kind == CallKind::Transfer,
        ProxyPermission::Governance => call.kind == CallKind::Governance,
        ProxyPermission::Custom(p) => call.pallet == p@,
    }
}

/// The calls, with their pallets' names as sequences.
pub open spec fn calls_view(calls: Seq<CallInfo>) -> Seq<CallInfoView> {
    calls.map_values(|c: CallInfo| c@)
}

/// Whether `permission` lets a proxy dispatch `call`.
fn permits_exec(permission: &ProxyPermission, call: &CallInfo) -> (r: bool)
    ensures
        r == permits(*permission, call@),
{
    match permission {
        ProxyPermission::All => true,
        ProxyPermission::Transfer => match call.kind {
            CallKind::Transfer => true,
            _ => false,
        },
        ProxyPermission::Governance => match call.kind {
            CallKind::Governance => true,
            _ => false,
        },
        ProxyPermission::Custom(p) => same_bytes(&call.pallet, p),
    }
}

/// The state of the paymaster pallet.
pub struct PaymasterState {
    /// Prepaid balance of each user.
    pub prepaid: Map<AccountId, Balance>,
    /// Proxies, by user and proxy.
    pub proxies: Map<(AccountId, AccountId), ProxyConfig>,
    /// Deposit authorizations, by beneficiary and payer.
    pub authorizations: Map<(AccountId, AccountId), DepositAuthorization>,
    /// Fee records of each user, oldest first.
    pub fee_records: Map<AccountId, Seq<FeeRecord>>,
    /// Service fees collected.
    pub total_service_fees: Balance,
    /// Funds of the system pool.
    pub system_pool: Balance,
    /// Events deposited, oldest first.
    pub events: Seq<Event>,
}

/// Prepaid balance of `who`.
pub open spec fn prepaid_of(s: PaymasterState, who: AccountId) -> Balance {
    value_or(s.prepaid, who, 0)
}

/// Fee records of `who`.
pub open spec fn fee_records_of(s: PaymasterState, who: AccountId) -> Seq<FeeRecord> {
    value_or(s.fee_records, who, Seq::empty())
}

/// `records` with `record` appended, unless it already holds 100 records.
pub open spec fn bounded_push(records: Seq<FeeRecord>, record: FeeRecord) -> Seq<FeeRecord> {
    if records.len() < 100 {
        records.push(record)
    } else {
        records
    }
}

/// The service fee on `fee` at `rate` basis points.
pub open spec fn service_fee(fee: Balance, rate: u32) -> Balance {
    (sat_mul(fee, rate as u128) / 10_000) as u128
}

/// The account of a pallet: `modl`, the pallet identifier, then zeros.
pub open spec fn pallet_account_bytes(id: [u8; 8]) -> Seq<u8> {
    seq![109u8, 111u8, 100u8, 108u8] + id@ + Seq::new(20, |i: int| 0u8)
}

/// How many of `results` are `true`.
pub open spec fn count_true(results: Seq<bool>) -> nat
    decreases results.len(),
{
    if results.len() == 0 {
        0
    } else {
        count_true(results.drop_last()) + if results.last() {
            1nat
        } else {
            0nat
        }
    }
}

/// The number of successes, saturating at `u32::MAX`.
pub open spec fn success_count(results: Seq<bool>) -> u32 {
    if count_true(results) >= u32::MAX {
        u32::MAX
    } else {
        count_true(results) as u32
    }
}

/// The paymaster pallet: its constants and its storage.
pub struct Pallet {
    config: Config,
    prepaid_balances: KeyMap<AccountId, Balance>,
    proxy_configs: KeyMap<(AccountId, AccountId), ProxyConfig>,
    deposit_authorizations: KeyMap<(AccountId, AccountId), DepositAuthorization>,
    fee_records: KeyMap<AccountId, BoundedVec<FeeRecord, ConstU32<100>>>,
    total_service_fees: Balance,
    system_pool: Balance,
    events: Vec<Event>,
}

impl View for Pallet {
    type V = PaymasterState;

    closed spec fn view(&self) -> PaymasterState {
        PaymasterState {
            prepaid: self.prepaid_balances@,
            proxies: self.proxy_configs@,
            authorizations: self.deposit_authorizations@,
            fee_records: self.fee_records@.map_values(
                |v: BoundedVec<FeeRecord, ConstU32<100>>| fee_record_list(v),
            ),
            total_service_fees: self.total_service_fees,
            system_pool: self.system_pool,
            events: self.events@,
        }
    }
}

impl Pallet {
    /// The storage is well formed.
    pub closed spec fn wf(&self) -> bool {
        &&& self.prepaid_balances.wf()
        &&& self.proxy_configs.wf()
        &&& self.deposit_authorizations.wf()
        &&& self.fee_records.wf()
    }

    /// The constants of the pallet.
    pub closed spec fn config(&self) -> Config {
        self.config
    }

    /// A pallet with empty storage.
    pub fn new(config: Config) -> (p: Pallet)
        ensures
            p.wf(),
            p.config() == config,
            p@.prepaid == Map::<AccountId, Balance>::empty(),
            p@.proxies == Map::<(AccountId, AccountId), ProxyConfig>::empty(),
            p@.authorizations == Map::<(AccountId, AccountId), DepositAuthorization>::empty(),
            p@.fee_records == Map::<AccountId, Seq<FeeRecord>>::empty(),
            p@.total_service_fees == 0,
            p@.system_pool == 0,
            p@.events == Seq::<Event>::empty(),
    {
        let p = Pallet {
            config,
            prepaid_balances: KeyMap::new(),
            proxy_configs: KeyMap::new(),
            deposit_authorizations: KeyMap::new(),
            fee_records: KeyMap::new(),
            total_service_fees: 0,
            system_pool: 0,
            events: Vec::new(),
        };
        assert(p@.fee_records =~= Map::<AccountId, Seq<FeeRecord>>::empty());
        p
    }

    /// The account of the pallet, derived from its identifier.
    pub fn pallet_account(&self) -> (r: AccountId)
        ensures
            r@ == pallet_account_bytes(self.config().pallet_id),
    {
        let id = self.config.pallet_id;
        let r: [u8; 32] = [
            109u8, 111u8, 100u8, 108u8, id[0], id[1], id[2], id[3], id[4], id[5], id[6], id[7],
            0u8, 0u8, 0u8, 0u8, 0u8, 0u8, 0u8, 0u8, 0u8, 0u8,
            0u8, 0u8, 0u8, 0u8, 0u8, 0u8, 0u8, 0u8, 0u8, 0u8,
        ];
        assert(r@ =~= pallet_account_bytes(id));
        r
    }

    /// Funds of the system pool.
    pub fn get_system_pool_balance(&self) -> (r: Balance)
        ensures
            r == self@.system_pool,
    {
        self.system_pool
    }

    /// Service fees collected.
    pub fn total_service_fees(&self) -> (r: Balance)
        ensures
            r == self@.total_service_fees,
    {
        self.total_service_fees
    }

    /// Prepaid balance of `who`.
    pub fn prepaid_balance(&self, who: &AccountId) -> (r: Balance)
        requires
            self.wf(),
        ensures
            r == prepaid_of(self@, *who),
    {
        self.prepaid_balances.get_or(who, 0)
    }

    /// Fee records of `who`, oldest first.
    pub fn fee_records(&self, who: &AccountId) -> (r: Vec<FeeRecord>)
        requires
            self.wf(),
        ensures
            r@ == fee_records_of(self@, *who),
    {
        match self.fee_records.get(who) {
            Some(v) => fee_records_to_vec(v),
            None => Vec::new(),
        }
    }

    /// The deposit authorization that `beneficiary` gave `payer`, if any.
    pub fn deposit_authorization(&self, beneficiary: &AccountId, payer: &AccountId) -> (r: Option<
        DepositAuthorization,
    >)
        requires
            self.wf(),
        ensures
            r == (if self@.authorizations.contains_key((*beneficiary, *payer)) {
                Some(self@.authorizations[(*beneficiary, *payer)])
            } else {
                None
            }),
    {
        match self.deposit_authorizations.get(&(*beneficiary, *payer)) {
            Some(a) => Some(*a),
            None => None,
        }
    }

    /// Whether `user` has `proxy`, and whether it is enabled.
    pub fn proxy_enabled(&self, user: &AccountId, proxy: &AccountId) -> (r: Option<bool>)
        requires
            self.wf(),
        ensures
            r == (if self@.proxies.contains_key((*user, *proxy)) {
                Some(self@.proxies[(*user, *proxy)].enabled)
            } else {
                None
            }),
    {
        match self.proxy_configs.get(&(*user, *proxy)) {
            Some(c) => Some(c.enabled),
            None => None,
        }
    }

    /// The events deposited so far, oldest first.
    pub fn events(&self) -> (r: &Vec<Event>)
        ensures
            r@ == self@.events,
    {
        &self.events
    }
}

impl Pallet {
    fn credit(&mut self, who: &AccountId, amount: Balance)
        requires
            old(self).wf(),
        ensures
            final(self).wf(),
            final(self).config() == old(self).config(),
            final(self)@ == (PaymasterState {
                prepaid: old(self)@.prepaid.insert(
                    *who,
                    prepaid_of(old(self)@, *who).saturating_add(amount),
                ),
                ..old(self)@
            }),
    {
        let b = self.prepaid_balances.get_or(who, 0);
        self.prepaid_balances.insert(*who, b.saturating_add(amount));
    }

    /// The signer asks to prepay `amount` for itself: the returned deposit
    /// is to be transferred into the pallet's account, then credited with
    /// `credit_deposit`.
    pub fn deposit_prepaid(&self, origin: Origin, amount: Balance) -> (r: Result<PendingDeposit, Error>)
        ensures
            signer(origin) is None ==> r == Err::<PendingDeposit, Error>(Error::BadOrigin),
            signer(origin) is Some && amount < self.config().minimum_deposit ==> r == Err::<
                PendingDeposit,
                Error,
            >(Error::BelowMinimumDeposit),
            signer(origin) matches Some(who) ==> amount >= self.config().minimum_deposit ==> (
            r matches Ok(d) && d@.beneficiary == who && d@.transfer.from == who && d@.transfer.to@
                == pallet_account_bytes(self.config().pallet_id) && d@.transfer.amount == amount),
    {
        let who = match ensure_signed(origin) {
            Some(w) => w,
            None => return Err(Error::BadOrigin),
        };
        if amount < self.config.minimum_deposit {
            return Err(Error::BelowMinimumDeposit);
        }
        let to = self.pallet_account();
        Ok(PendingDeposit { transfer: Transfer { from: who, to, amount }, beneficiary: who })
    }

    /// The signer asks to prepay `amount` for `beneficiary`.
    pub fn deposit_prepaid_for(
        &self,
        origin: Origin,
        beneficiary: AccountId,
        amount: Balance,
    ) -> (r: Result<PendingDeposit, Error>)
        ensures
            signer(origin) is None ==> r == Err::<PendingDeposit, Error>(Error::BadOrigin),
            signer(origin) is Some && amount < self.config().minimum_deposit ==> r == Err::<
                PendingDeposit,
                Error,
            >(Error::BelowMinimumDeposit),
            signer(origin) matches Some(payer) ==> amount >= self.config().minimum_deposit ==> (
            r matches Ok(d) && d@.beneficiary == beneficiary && d@.transfer.from == payer
                && d@.transfer.to@ == pallet_account_bytes(self.config().pallet_id)
                && d@.transfer.amount == amount),
    {
        let payer = match ensure_signed(origin) {
            Some(w) => w,
            None => return Err(Error::BadOrigin),
        };
        if amount < self.config.minimum_deposit {
            return Err(Error::BelowMinimumDeposit);
        }
        let to = self.pallet_account();
        Ok(PendingDeposit { transfer: Transfer { from: payer, to, amount }, beneficiary })
    }

    /// The signer asks to prepay `amount` for `beneficiary`, under the
    /// authorization that `beneficiary` gave it.
    pub fn authorized_deposit_prepaid(
        &self,
        origin: Origin,
        beneficiary: AccountId,
        amount: Balance,
    ) -> (r: Result<PendingDeposit, Error>)
        requires
            self.wf(),
        ensures
            signer(origin) is None ==> r == Err::<PendingDeposit, Error>(Error::BadOrigin),
            signer(origin) is Some && amount < self.config().minimum_deposit ==> r == Err::<
                PendingDeposit,
                Error,
            >(Error::BelowMinimumDeposit),
            signer(origin) matches Some(payer) ==> amount >= self.config().minimum_deposit && (
            !self@.authorizations.contains_key((beneficiary, payer))
                || !self@.authorizations[(beneficiary, payer)].enabled) ==> r == Err::<
                PendingDeposit,
                Error,
            >(Error::NotAuthorized),
            signer(origin) matches Some(payer) ==> amount >= self.config().minimum_deposit
                && self@.authorizations.contains_key((beneficiary, payer))
                && self@.authorizations[(beneficiary, payer)].enabled ==> ({
                let auth = self@.authorizations[(beneficiary, payer)];
                &&& (auth.max_amount matches Some(m) && amount > m) ==> r == Err::<
                    PendingDeposit,
                    Error,
                >(Error::ExceedsFeeLimit)
                &&& !(auth.max_amount matches Some(m) && amount > m) ==> (r matches Ok(d)
                    && d@.beneficiary == beneficiary && d@.transfer.from == payer
                    && d@.transfer.to@ == pallet_account_bytes(self.config().pallet_id)
                    && d@.transfer.amount == amount)
            }),
    {
        let payer = match ensure_signed(origin) {
            Some(w) => w,
            None => return Err(Error::BadOrigin),
        };
        if amount < self.config.minimum_deposit {
            return Err(Error::BelowMinimumDeposit);
        }
        let auth = match self.deposit_authorizations.get(&(beneficiary, payer)) {
            Some(a) => *a,
            None => return Err(Error::NotAuthorized),
        };
        if !auth.enabled {
            return Err(Error::NotAuthorized);
        }
        match auth.max_amount {
            Some(max) => {
                if amount > max {
                    return Err(Error::ExceedsFeeLimit);
                }
            },
            None => {},
        }
        let to = self.pallet_account();
        Ok(PendingDeposit { transfer: Transfer { from: payer, to, amount }, beneficiary })
    }

    /// Credits a deposit once its transfer was made (`transferred`); a failed
    /// transfer is refused with `Overflow`.
    pub fn credit_deposit(&mut self, deposit: &PendingDeposit, transferred: bool) -> (r: Result<
        (),
        Error,
    >)
        requires
            old(self).wf(),
        ensures
            final(self).wf(),
            final(self).config() == old(self).config(),
            !transferred ==> r == Err::<(), Error>(Error::Overflow) && final(self)@ == old(self)@,
            transferred ==> r is Ok && final(self)@ == (PaymasterState {
                prepaid: old(self)@.prepaid.insert(
                    deposit@.beneficiary,
                    prepaid_of(old(self)@, deposit@.beneficiary).saturating_add(
                        deposit@.transfer.amount,
                    ),
                ),
                events: old(self)@.events.push(
                    Event::PrepaidDeposited {
                        user: deposit@.beneficiary,
                        amount: deposit@.transfer.amount,
                    },
                ),
                ..old(self)@
            }),
    {
        if !transferred {
            return Err(Error::Overflow);
        }
        self.credit(&deposit.beneficiary, deposit.transfer.amount);
        self.events.push(
            Event::PrepaidDeposited { user: deposit.beneficiary, amount: deposit.transfer.amount },
        );
        Ok(())
    }

    /// The signer lets `authorized_payer` deposit for it, up to `max_amount`
    /// (without limit when `None`), or withdraws that leave when `enabled` is false.
    pub fn set_deposit_authorization(
        &mut self,
        origin: Origin,
        authorized_payer: AccountId,
        max_amount: Option<Balance>,
        enabled: bool,
    ) -> (r: Result<(), Error>)
        requires
            old(self).wf(),
        ensures
            final(self).wf(),
            final(self).config() == old(self).config(),
            signer(origin) is None ==> r == Err::<(), Error>(Error::BadOrigin) && final(self)@ == old(
                self)@,
            signer(origin) matches Some(who) ==> r is Ok && final(self)@ == (PaymasterState {
                authorizations: old(self)@.authorizations.insert(
                    (who, authorized_payer),
                    DepositAuthorization { max_amount, enabled },
                ),
                ..old(self)@
            }),
    {
        let who = match ensure_signed(origin) {
            Some(w) => w,
            None => return Err(Error::BadOrigin),
        };
        self.deposit_authorizations.insert(
            (who, authorized_payer),
            DepositAuthorization { max_amount, enabled },
        );
        Ok(())
    }

    /// The signer asks to withdraw `amount` of its prepaid balance: the
    /// returned transfer, out of the pallet's account, is to be made before
    /// `finish_withdraw` reduces the balance.
    pub fn withdraw_prepaid(&self, origin: Origin, amount: Balance) -> (r: Result<
        PendingWithdrawal,
        Error,
    >)
        requires
            self.wf(),
        ensures
            signer(origin) is None ==> (r matches Err(e) && e == Error::BadOrigin),
            signer(origin) matches Some(who) ==> prepaid_of(self@, who) < amount ==> (r matches Err(
                e,
            ) && e == Error::InsufficientBalance),
            signer(origin) matches Some(who) ==> prepaid_of(self@, who) >= amount ==> (r matches Ok(
                w,
            ) && w@.from@ == pallet_account_bytes(self.config().pallet_id) && w@.to == who
                && w@.amount == amount),
    {
        let who = match ensure_signed(origin) {
            Some(w) => w,
            None => return Err(Error::BadOrigin),
        };
        let from = self.pallet_account();
        let b = self.prepaid_balances.get_or(&who, 0);
        if b < amount {
            return Err(Error::InsufficientBalance);
        }
        Ok(PendingWithdrawal { transfer: Transfer { from, to: who, amount } })
    }

    /// Finishes a withdrawal once its transfer was made (`transferred`): the
    /// prepaid balance is reduced. A failed transfer is refused with
    /// `Overflow`, and so is a balance that no longer covers the amount;
    /// then nothing changes, as the chain discards what a failed call changed.
    pub fn finish_withdraw(&mut self, withdrawal: &PendingWithdrawal, transferred: bool) -> (r:
        Result<(), Error>)
        requires
            old(self).wf(),
        ensures
            final(self).wf(),
            final(self).config() == old(self).config(),
            !transferred ==> r == Err::<(), Error>(Error::Overflow) && final(self)@ == old(self)@,
            ({
                let t = withdrawal@;
                let s = old(self)@;
                &&& transferred && prepaid_of(s, t.to) < t.amount ==> r == Err::<(), Error>(
                    Error::InsufficientBalance,
                ) && final(self)@ == s
                &&& transferred && prepaid_of(s, t.to) >= t.amount ==> r is Ok && final(self)@ == (
                PaymasterState {
                    prepaid: s.prepaid.insert(t.to, (prepaid_of(s, t.to) - t.amount) as u128),
                    events: s.events.push(Event::PrepaidWithdrawn { user: t.to, amount: t.amount }),
                    ..s
                })
            }),
    {
        if !transferred {
            return Err(Error::Overflow);
        }
        let t = withdrawal.transfer;
        let b = self.prepaid_balances.get_or(&t.to, 0);
        if b < t.amount {
            return Err(Error::InsufficientBalance);
        }
        self.prepaid_balances.insert(t.to, b - t.amount);
        self.events.push(Event::PrepaidWithdrawn { user: t.to, amount: t.amount });
        Ok(())
    }

    /// The signer adds `proxy`, enabled, with `permission` and `fee_limit`.
    pub fn add_proxy(
        &mut self,
        origin: Origin,
        proxy: AccountId,
        permission: ProxyPermission,
        fee_limit: Balance,
    ) -> (r: Result<(), Error>)
        requires
            old(self).wf(),
        ensures
            final(self).wf(),
            final(self).config() == old(self).config(),
            signer(origin) is None ==> r == Err::<(), Error>(Error::BadOrigin) && final(self)@ == old(
                self)@,
            signer(origin) matches Some(who) ==> old(self)@.proxies.contains_key((who, proxy)) ==> r
                == Err::<(), Error>(Error::ProxyAlreadyExists) && final(self)@ == old(self)@,
            signer(origin) matches Some(who) ==> !old(self)@.proxies.contains_key((who, proxy)) ==> ({
                let s = old(self)@;
                let f = final(self)@;
                &&& r is Ok
                &&& f.proxies == s.proxies.insert(
                    (who, proxy),
                    ProxyConfig { proxy, permission, fee_limit, enabled: true },
                )
                &&& f.events.len() == s.events.len() + 1
                &&& f.events.drop_last() == s.events
                &&& f.events.last() matches Event::ProxyAdded { user: u, proxy: p, permission: q }
                    && u == who && p == proxy && same_permission(q, permission)
                &&& f.prepaid == s.prepaid
                &&& f.authorizations == s.authorizations
                &&& f.fee_records == s.fee_records
                &&& f.total_service_fees == s.total_service_fees
                &&& f.system_pool == s.system_pool
            }),
    {
        let who = match ensure_signed(origin) {
            Some(w) => w,
            None => return Err(Error::BadOrigin),
        };
        if self.proxy_configs.contains_key(&(who, proxy)) {
            return Err(Error::ProxyAlreadyExists);
        }
        let event_permission = permission.copy();
        self.proxy_configs.insert(
            (who, proxy),
            ProxyConfig { proxy, permission, fee_limit, enabled: true },
        );
        let ghost ev0 = self.events@;
        self.events.push(Event::ProxyAdded { user: who, proxy, permission: event_permission });
        assert(self.events@.drop_last() =~= ev0);
        Ok(())
    }

    /// The signer removes `proxy`.
    pub fn remove_proxy(&mut self, origin: Origin, proxy: AccountId) -> (r: Result<(), Error>)
        requires
            old(self).wf(),
        ensures
            final(self).wf(),
            final(self).config() == old(self).config(),
            signer(origin) is None ==> r == Err::<(), Error>(Error::BadOrigin) && final(self)@ == old(
                self)@,
            signer(origin) matches Some(who) ==> !old(self)@.proxies.contains_key((who, proxy)) ==> r
                == Err::<(), Error>(Error::ProxyNotFound) && final(self)@ == old(self)@,
            signer(origin) matches Some(who) ==> old(self)@.proxies.contains_key((who, proxy)) ==> r
                is Ok && final(self)@ == (PaymasterState {
                proxies: old(self)@.proxies.remove((who, proxy)),
                events: old(self)@.events.push(Event::ProxyRemoved { user: who, proxy }),
                ..old(self)@
            }),
    {
        let who = match ensure_signed(origin) {
            Some(w) => w,
            None => return Err(Error::BadOrigin),
        };
        match self.proxy_configs.remove(&(who, proxy)) {
            Some(_) => {},
            None => {
                assert(self.proxy_configs@ =~= old(self).proxy_configs@);
                return Err(Error::ProxyNotFound);
            },
        }
        self.events.push(Event::ProxyRemoved { user: who, proxy });
        Ok(())
    }

    /// Why `proxy` may not dispatch `calls` for `user` and be paid
    /// `estimated_fee`, if it may not; otherwise the charge is taken: the
    /// total fee leaves the user's prepaid balance and the service fee is
    /// collected.
    fn take_charge(
        &mut self,
        user: AccountId,
        proxy: AccountId,
        calls: &Vec<CallInfo>,
        estimated_fee: Balance,
    ) -> (r: Result<ProxyCharge, Error>)
        requires
            old(self).wf(),
        ensures
            final(self).wf(),
            final(self).config() == old(self).config(),
            ({
                let s = old(self)@;
                let err = charge_error(s, old(self).config(), user, proxy, calls_view(calls@), estimated_fee);
                &&& err matches Some(e) ==> (r matches Err(x) && x == e) && final(self)@ == s
                &&& err is None ==> (r matches Ok(ch) && ch@ == charge_of(
                    old(self).config(),
                    user,
                    proxy,
                    estimated_fee,
                    s.total_service_fees,
                ) && final(self)@ == debited(s, ch@))
            }),
    {
        let (enabled, fee_limit) = match self.proxy_configs.get(&(user, proxy)) {
            Some(c) => (c.enabled, c.fee_limit),
            None => return Err(Error::ProxyNotFound),
        };
        if !enabled {
            return Err(Error::ProxyDisabled);
        }
        if estimated_fee > fee_limit {
            return Err(Error::ExceedsFeeLimit);
        }
        let cfg = match self.proxy_configs.get(&(user, proxy)) {
            Some(c) => c,
            None => return Err(Error::ProxyNotFound),
        };
        let ghost cv = calls_view(calls@);
        let ghost perm = self@.proxies[(user, proxy)].permission;
        let mut i: usize = 0;
        while i < calls.len()
            invariant
                self.wf(),
                i <= calls@.len(),
                cv == calls_view(calls@),
                perm == cfg.permission,
                perm == self@.proxies[(user, proxy)].permission,
                self@.proxies.contains_key((user, proxy)),
                self@.proxies[(user, proxy)].enabled,
                estimated_fee <= self@.proxies[(user, proxy)].fee_limit,
                forall|t: int| 0 <= t < i ==> permits(perm, #[trigger] cv[t]),
            decreases calls@.len() - i,
        {
            if !permits_exec(&cfg.permission, &calls[i]) {
                assert(!permits(perm, cv[i as int]));
                return Err(Error::InsufficientPermission);
            }
            i = i + 1;
        }
        let service_fee = saturating_mul_u128(estimated_fee, self.config.service_fee_rate as u128)
            / 10_000;
        let total_fee = estimated_fee.saturating_add(service_fee);
        let b = self.prepaid_balances.get_or(&user, 0);
        if b < total_fee {
            return Err(Error::InsufficientBalance);
        }
        let fees_before = self.total_service_fees;
        self.prepaid_balances.insert(user, b - total_fee);
        self.total_service_fees = self.total_service_fees.saturating_add(service_fee);
        Ok(ProxyCharge { user, proxy, estimated_fee, service_fee, total_fee, fees_before })
    }

    /// Undoes a charge: the total fee goes back to the user's prepaid balance
    /// and the service fees go back to what they were.
    fn undo_charge(&mut self, charge: &ProxyCharge)
        requires
            old(self).wf(),
        ensures
            final(self).wf(),
            final(self).config() == old(self).config(),
            final(self)@ == refunded(old(self)@, charge@),
    {
        let b = self.prepaid_balances.get_or(&charge.user, 0);
        self.prepaid_balances.insert(charge.user, b.saturating_add(charge.total_fee));
        self.total_service_fees = charge.fees_before;
    }

    /// The signing proxy dispatches `call` for `user`, estimating its fee at
    /// `estimated_fee`. When the proxy may, the fee and the service fee are
    /// taken from the user's prepaid balance before the call is dispatched;
    /// `finish_proxy_execute` then settles the charge by the call's outcome.
    pub fn proxy_execute(
        &mut self,
        origin: Origin,
        user: AccountId,
        call: CallInfo,
        estimated_fee: Balance,
    ) -> (r: Result<ProxyCharge, Error>)
        requires
            old(self).wf(),
        ensures
            final(self).wf(),
            final(self).config() == old(self).config(),
            signer(origin) is None ==> (r matches Err(e) && e == Error::BadOrigin) && final(self)@
                == old(self)@,
            signer(origin) matches Some(proxy) ==> ({
                let s = old(self)@;
                let err = charge_error(s, old(self).config(), user, proxy, seq![call@], estimated_fee);
                &&& err matches Some(e) ==> (r matches Err(x) && x == e) && final(self)@ == s
                &&& err is None ==> (r matches Ok(ch) && ch@ == charge_of(
                    old(self).config(),
                    user,
                    proxy,
                    estimated_fee,
                    s.total_service_fees,
                ) && final(self)@ == debited(s, ch@))
            }),
    {
        let proxy = match ensure_signed(origin) {
            Some(w) => w,
            None => return Err(Error::BadOrigin),
        };
        let mut calls: Vec<CallInfo> = Vec::new();
        calls.push(call);
        proof {
            assert(calls_view(calls@) =~= seq![call@]);
        }
        self.take_charge(user, proxy, &calls, estimated_fee)
    }

    /// Finishes a proxied call with its `outcome`. When the call succeeded,
    /// the estimated fee is recorded at block `now`. When it failed, the
    /// request fails with the call's error and the charge is undone, as the
    /// chain discards what a failed call changed.
    pub fn finish_proxy_execute(
        &mut self,
        charge: ProxyCharge,
        outcome: Result<(), u32>,
        now: BlockNumber,
    ) -> (r: Result<(), Error>)
        requires
            old(self).wf(),
        ensures
            final(self).wf(),
            final(self).config() == old(self).config(),
            outcome matches Err(code) ==> r == Err::<(), Error>(Error::CallFailed(code))
                && final(self)@ == refunded(old(self)@, charge@),
            outcome is Ok ==> r is Ok && final(self)@ == (PaymasterState {
                events: recorded(old(self)@, charge@, now).events.push(
                    Event::ProxyExecuted {
                        user: charge@.user,
                        proxy: charge@.proxy,
                        fee: charge@.estimated_fee,
                    },
                ),
                ..recorded(old(self)@, charge@, now)
            }),
    {
        match outcome {
            Ok(()) => {},
            Err(code) => {
                self.undo_charge(&charge);
                return Err(Error::CallFailed(code));
            },
        }
        self.record_fee(&charge.user, charge.estimated_fee, now);
        self.events.push(
            Event::ProxyExecuted {
                user: charge.user,
                proxy: charge.proxy,
                fee: charge.estimated_fee,
            },
        );
        Ok(())
    }

    fn record_fee(&mut self, user: &AccountId, amount: Balance, now: BlockNumber)
        requires
            old(self).wf(),
        ensures
            final(self).wf(),
            final(self).config() == old(self).config(),
            final(self)@ == (PaymasterState {
                fee_records: old(self)@.fee_records.insert(
                    *user,
                    bounded_push(
                        fee_records_of(old(self)@, *user),
                        FeeRecord { amount, block_number: now, tx_hash: None },
                    ),
                ),
                ..old(self)@
            }),
    {
        let ghost old_lists = self.fee_records@;
        let mut records = match self.fee_records.remove(user) {
            Some(v) => v,
            None => fee_records_new(),
        };
        assert(fee_record_list(records) == fee_records_of(old(self)@, *user));
        let _ = fee_records_try_push(
            &mut records,
            FeeRecord { amount, block_number: now, tx_hash: None },
        );
        let ghost list = fee_record_list(records);
        self.fee_records.insert(*user, records);
        assert(self.fee_records@.map_values(
            |v: BoundedVec<FeeRecord, ConstU32<100>>| fee_record_list(v),
        ) =~= old_lists.map_values(|v: BoundedVec<FeeRecord, ConstU32<100>>| fee_record_list(v)).insert(
            *user,
            list,
        ));
    }

    /// The signing proxy dispatches `calls` for `user`, all or none,
    /// estimating their total fee at `estimated_total_fee`. When the proxy
    /// may, the fee and the service fee are taken before the calls are
    /// dispatched; `finish_batch_proxy_execute` then settles the charge by
    /// the calls' outcomes.
    pub fn batch_proxy_execute(
        &mut self,
        origin: Origin,
        user: AccountId,
        calls: &Vec<CallInfo>,
        estimated_total_fee: Balance,
    ) -> (r: Result<ProxyCharge, Error>)
        requires
            old(self).wf(),
        ensures
            final(self).wf(),
            final(self).config() == old(self).config(),
            signer(origin) is None ==> (r matches Err(e) && e == Error::BadOrigin) && final(self)@
                == old(self)@,
            signer(origin) is Some && calls@.len() as u32 > old(self).config().max_batch_size ==> (
            r matches Err(e) && e == Error::TooManyBatchCalls) && final(self)@ == old(self)@,
            signer(origin) matches Some(proxy) ==> calls@.len() as u32
                <= old(self).config().max_batch_size ==> ({
                let s = old(self)@;
                let err = charge_error(
                    s,
                    old(self).config(),
                    user,
                    proxy,
                    calls_view(calls@),
                    estimated_total_fee,
                );
                &&& err matches Some(e) ==> (r matches Err(x) && x == e) && final(self)@ == s
                &&& err is None ==> (r matches Ok(ch) && ch@ == charge_of(
                    old(self).config(),
                    user,
                    proxy,
                    estimated_total_fee,
                    s.total_service_fees,
                ) && final(self)@ == debited(s, ch@))
            }),
    {
        let proxy = match ensure_signed(origin) {
            Some(w) => w,
            None => return Err(Error::BadOrigin),
        };
        if calls.len() as u32 > self.config.max_batch_size {
            return Err(Error::TooManyBatchCalls);
        }
        self.take_charge(user, proxy, calls, estimated_total_fee)
    }

    /// Finishes a batch with the `outcomes` of its calls. A batch succeeds or
    /// fails as a whole: when every call succeeded the estimated fee is
    /// recorded at block `now`, and the number of calls is returned, with no
    /// transaction fee to pay for the batch. Otherwise the request fails with
    /// the first failed call's error and the charge is undone (the calls are
    /// to be undone too, as the chain discards what a failed call changed).
    pub fn finish_batch_proxy_execute(
        &mut self,
        charge: ProxyCharge,
        outcomes: &Vec<Result<(), u32>>,
        now: BlockNumber,
    ) -> (r: Result<BatchOutcome, Error>)
        requires
            old(self).wf(),
        ensures
            final(self).wf(),
            final(self).config() == old(self).config(),
            r is Ok <==> forall|i: int| 0 <= i < outcomes@.len() ==> #[trigger] outcomes@[i] is Ok,
            r matches Ok(o) ==> o.count == batch_count(outcomes@.len()) && !o.pays_fee,
            r matches Err(e) ==> exists|i: int|
                0 <= i < outcomes@.len() && e == Error::CallFailed(outcomes@[i]->Err_0) && #[trigger] outcomes@[i] is Err && forall|j: int| 0 <= j < i ==> outcomes@[j] is Ok,
            first_failure(outcomes@) matches Some(code) ==> r == Err::<BatchOutcome, Error>(
                Error::CallFailed(code),
            ) && final(self)@ == refunded(old(self)@, charge@),
            first_failure(outcomes@) is None ==> ({
                let c = charge@;
                let n = batch_count(outcomes@.len());
                &&& r == Ok::<BatchOutcome, Error>(BatchOutcome { count: n, pays_fee: false })
                &&& final(self)@ == (PaymasterState {
                    events: recorded(old(self)@, c, now).events.push(
                        Event::BatchExecuted {
                            user: c.user,
                            proxy: c.proxy,
                            count: n,
                            total_fee: c.estimated_fee,
                        },
                    ),
                    ..recorded(old(self)@, c, now)
                })
            }),
    {
        proof {
            lemma_first_failure_is_first_error(outcomes@);
        }
        let mut success: u32 = 0;
        let mut i: usize = 0;
        assert(outcomes@.skip(0) =~= outcomes@);
        while i < outcomes.len()
            invariant
                self.wf(),
                self@ == old(self)@,
                self.config == old(self).config,
                i <= outcomes@.len(),
                success == batch_count(i as nat),
                first_failure(outcomes@) == first_failure(outcomes@.skip(i as int)),
            decreases outcomes@.len() - i,
        {
            assert(outcomes@.skip(i as int).drop_first() =~= outcomes@.skip(i + 1));
            assert(outcomes@.skip(i as int)[0] == outcomes@[i as int]);
            match outcomes[i] {
                Ok(()) => {},
                Err(code) => {
                    proof {
                        lemma_first_failure_is_first_error(outcomes@);
                        assert(first_failure(outcomes@) == Some(code));
                        let k = choose|k: int|
                            0 <= k < outcomes@.len() && #[trigger] outcomes@[k] == Err::<(), u32>(code)
                                && forall|j: int| 0 <= j < k ==> outcomes@[j] is Ok;
                        assert(outcomes@[k] is Err);
                    }
                    self.undo_charge(&charge);
                    return Err(Error::CallFailed(code));
                },
            }
            success = success.saturating_add(1);
            i = i + 1;
        }
        assert(outcomes@.skip(i as int) =~= Seq::<Result<(), u32>>::empty());
        self.record_fee(&charge.user, charge.estimated_fee, now);
        self.events.push(
            Event::BatchExecuted {
                user: charge.user,
                proxy: charge.proxy,
                count: success,
                total_fee: charge.estimated_fee,
            },
        );
        Ok(BatchOutcome { count: success, pays_fee: false })
    }

    /// Adds `amount` to the system pool (the tokens are already in the
    /// pallet's account).
    pub fn increase_system_pool(&mut self, amount: Balance) -> (r: Result<(), Error>)
        ensures
            final(self).config() == old(self).config(),
            r is Ok,
            final(self)@ == (PaymasterState {
                system_pool: old(self)@.system_pool.saturating_add(amount),
                events: old(self)@.events.push(
                    Event::SystemPoolIncreased {
                        amount,
                        new_total: old(self)@.system_pool.saturating_add(amount),
                    },
                ),
                ..old(self)@
            }),
    {
        self.system_pool = self.system_pool.saturating_add(amount);
        let new_total = self.system_pool;
        self.events.push(Event::SystemPoolIncreased { amount, new_total });
        Ok(())
    }
}

/// Why `proxy` may not dispatch `calls` for `user` and be paid `fee`, if it
/// may not: checked in order, the proxy is missing, disabled, over its fee
/// limit, not permitted one of the calls, or the user's prepaid balance does
/// not cover the fee and the service fee.
pub open spec fn charge_error(
    s: PaymasterState,
    c: Config,
    user: AccountId,
    proxy: AccountId,
    calls: Seq<CallInfoView>,
    fee: Balance,
) -> Option<Error> {
    let total = fee.saturating_add(service_fee(fee, c.service_fee_rate));
    if !s.proxies.contains_key((user, proxy)) {
        Some(Error::ProxyNotFound)
    } else if !s.proxies[(user, proxy)].enabled {
        Some(Error::ProxyDisabled)
    } else if fee > s.proxies[(user, proxy)].fee_limit {
        Some(Error::ExceedsFeeLimit)
    } else if exists|i: int|
        0 <= i < calls.len() && !permits(s.proxies[(user, proxy)].permission, #[trigger] calls[i]) {
        Some(Error::InsufficientPermission)
    } else if prepaid_of(s, user) < total {
        Some(Error::InsufficientBalance)
    } else {
        None
    }
}

/// The charge of `proxy` paid `fee` for `user`, taken when the service fees
/// stood at `fees_before`: the fee plus the service fee.
pub open spec fn charge_of(
    c: Config,
    user: AccountId,
    proxy: AccountId,
    fee: Balance,
    fees_before: Balance,
) -> ProxyChargeView {
    let service = service_fee(fee, c.service_fee_rate);
    ProxyChargeView {
        user,
        proxy,
        estimated_fee: fee,
        service_fee: service,
        total_fee: fee.saturating_add(service),
        fees_before,
    }
}

/// `s` after a charge was taken: the total fee leaves the user's prepaid
/// balance, and the service fee is collected.
pub open spec fn debited(s: PaymasterState, c: ProxyChargeView) -> PaymasterState {
    PaymasterState {
        prepaid: s.prepaid.insert(c.user, (prepaid_of(s, c.user) - c.total_fee) as u128),
        total_service_fees: s.total_service_fees.saturating_add(c.service_fee),
        ..s
    }
}

/// `s` after a charge was undone: the total fee is back in the user's
/// prepaid balance, and the service fees are back where they were.
pub open spec fn refunded(s: PaymasterState, c: ProxyChargeView) -> PaymasterState {
    PaymasterState {
        prepaid: s.prepaid.insert(c.user, prepaid_of(s, c.user).saturating_add(c.total_fee)),
        total_service_fees: c.fees_before,
        ..s
    }
}

/// `s` after the estimated fee of a charge was recorded at block `now`.
pub open spec fn recorded(s: PaymasterState, c: ProxyChargeView, now: BlockNumber) -> PaymasterState {
    PaymasterState {
        fee_records: s.fee_records.insert(
            c.user,
            bounded_push(
                fee_records_of(s, c.user),
                FeeRecord { amount: c.estimated_fee, block_number: now, tx_hash: None },
            ),
        ),
        ..s
    }
}

/// The error of the first failed call, if one failed.
pub open spec fn first_failure(outcomes: Seq<Result<(), u32>>) -> Option<u32>
    decreases outcomes.len(),
{
    if outcomes.len() == 0 {
        None
    } else {
        match outcomes[0] {
            Err(code) => Some(code),
            Ok(_) => first_failure(outcomes.drop_first()),
        }
    }
}

/// The number of calls in a batch, saturating at `u32::MAX`.
pub open spec fn batch_count(n: nat) -> u32 {
    if n >= u32::MAX {
        u32::MAX
    } else {
        n as u32
    }
}

/// What a successful batch reports: how many calls succeeded, and whether
/// the proxy pays a transaction fee for the batch (it does not).
#[derive(Clone, Copy, Debug, PartialEq, Eq, Structural)]
pub struct BatchOutcome {
    pub count: u32,
    pub pays_fee: bool,
}

} // verus!

verus! {

/// `s` with the prepaid balance of `who` set to `value`.
pub open spec fn with_prepaid(s: PaymasterState, who: AccountId, value: Balance) -> PaymasterState {
    PaymasterState { prepaid: s.prepaid.insert(who, value), ..s }
}

/// Crediting a deposit and then withdrawing the same amount leaves the
/// prepaid balance where it was, while the credit does not saturate.
pub proof fn lemma_deposit_then_withdraw_restores(s: PaymasterState, who: AccountId, amount: Balance)
    requires
        prepaid_of(s, who) + amount <= u128::MAX,
    ensures
        ({
            let d = with_prepaid(s, who, prepaid_of(s, who).saturating_add(amount));
            &&& prepaid_of(d, who) >= amount
            &&& with_prepaid(d, who, (prepaid_of(d, who) - amount) as u128) == with_prepaid(
                s,
                who,
                prepaid_of(s, who),
            )
        }),
{
    let d = with_prepaid(s, who, prepaid_of(s, who).saturating_add(amount));
    assert(d.prepaid.insert(who, (prepaid_of(d, who) - amount) as u128) =~= s.prepaid.insert(
        who,
        prepaid_of(s, who),
    ));
}

/// A fee-record list never holds more than 100 records; a record is kept
/// exactly when there was room for it.
pub proof fn lemma_fee_records_stay_bounded(records: Seq<FeeRecord>, record: FeeRecord)
    requires
        records.len() <= 100,
    ensures
        bounded_push(records, record).len() <= 100,
        records.len() < 100 ==> bounded_push(records, record).last() == record,
        records.len() == 100 ==> bounded_push(records, record) == records,
{
}

/// With a rate of at most 10,000 basis points, the service fee never
/// exceeds the fee.
pub proof fn lemma_service_fee_at_most_fee(fee: Balance, rate: u32)
    requires
        rate <= 10_000,
    ensures
        service_fee(fee, rate) <= fee,
{
    let f = fee as int;
    let r = rate as int;
    assert(f * r <= f * 10_000) by (nonlinear_arith)
        requires
            0 <= f,
            0 <= r <= 10_000,
    ;
    assert((f * r) / 10_000 <= f) by (nonlinear_arith)
        requires
            0 <= f,
            f * r <= f * 10_000,
            0 <= f * r,
    ;
    if f * r > u128::MAX {
        assert(u128::MAX / 10_000 <= f) by (nonlinear_arith)
            requires
                f * r > u128::MAX,
                r <= 10_000,
                0 <= f,
        ;
    }
}

/// Permissions are checked before anything is charged: once the proxy
/// exists, is enabled and within its fee limit, a call its permission does
/// not cover refuses the whole request with `InsufficientPermission` (so a
/// transfer-only proxy may not dispatch a governance call).
pub proof fn lemma_permission_is_checked(
    s: PaymasterState,
    c: Config,
    user: AccountId,
    proxy: AccountId,
    calls: Seq<CallInfoView>,
    fee: Balance,
    i: int,
)
    requires
        s.proxies.contains_key((user, proxy)),
        s.proxies[(user, proxy)].enabled,
        fee <= s.proxies[(user, proxy)].fee_limit,
        0 <= i < calls.len(),
        !permits(s.proxies[(user, proxy)].permission, calls[i]),
    ensures
        charge_error(s, c, user, proxy, calls, fee) == Some(Error::InsufficientPermission),
{
    assert(!permits(s.proxies[(user, proxy)].permission, calls[i]));
}

/// A proxied call or batch that fails leaves every prepaid balance and the
/// service fees as they were before the charge: what is taken before the
/// dispatch is given back in full.
pub proof fn lemma_failed_call_restores(
    s: PaymasterState,
    c: Config,
    user: AccountId,
    proxy: AccountId,
    calls: Seq<CallInfoView>,
    fee: Balance,
)
    requires
        charge_error(s, c, user, proxy, calls, fee) is None,
    ensures
        ({
            let ch = charge_of(c, user, proxy, fee, s.total_service_fees);
            let f = refunded(debited(s, ch), ch);
            &&& forall|a: AccountId| prepaid_of(f, a) == prepaid_of(s, a)
            &&& f.total_service_fees == s.total_service_fees
            &&& f.proxies == s.proxies && f.authorizations == s.authorizations
            &&& f.fee_records == s.fee_records && f.events == s.events
            &&& f.system_pool == s.system_pool
        }),
{
}

/// The failure a batch reports is its first failed call: there is one
/// exactly when some call failed, and then it is the error of a failed call
/// before which every call succeeded.
pub proof fn lemma_first_failure_is_first_error(outcomes: Seq<Result<(), u32>>)
    ensures
        first_failure(outcomes) is None <==> forall|i: int|
            0 <= i < outcomes.len() ==> #[trigger] outcomes[i] is Ok,
        first_failure(outcomes) matches Some(code) ==> exists|i: int|
            0 <= i < outcomes.len() && #[trigger] outcomes[i] == Err::<(), u32>(code) && forall|j: int|
                0 <= j < i ==> outcomes[j] is Ok,
    decreases outcomes.len(),
{
    if outcomes.len() > 0 {
        let rest = outcomes.drop_first();
        lemma_first_failure_is_first_error(rest);
        match outcomes[0] {
            Err(code) => {
                assert(outcomes[0] == Err::<(), u32>(code));
            },
            Ok(_) => {
                assert forall|i: int| 0 <= i < rest.len() implies #[trigger] rest[i] == outcomes[i + 1] by {}
                if first_failure(rest) is None {
                    assert forall|i: int| 0 <= i < outcomes.len() implies #[trigger] outcomes[i] is Ok by {
                        if i > 0 {
                            assert(rest[i - 1] is Ok);
                        }
                    }
                } else {
                    let code = first_failure(rest)->0;
                    let k = choose|k: int|
                        0 <= k < rest.len() && #[trigger] rest[k] == Err::<(), u32>(code) && forall|j: int|
                            0 <= j < k ==> rest[j] is Ok;
                    assert(outcomes[k + 1] == Err::<(), u32>(code));
                    assert forall|j: int| 0 <= j < k + 1 implies outcomes[j] is Ok by {
                        if j > 0 {
                            assert(rest[j - 1] is Ok);
                        }
                    }
                    assert(!(outcomes[k + 1] is Ok));
                }
            },
        }
    }
}

/// The service fee is the fee times the rate in basis points, rounded down,
/// and a charge takes the fee plus that service fee (while nothing saturates).
pub proof fn lemma_charge_is_fee_plus_service(
    c: Config,
    user: AccountId,
    proxy: AccountId,
    fee: Balance,
    fees_before: Balance,
)
    requires
        fee * c.service_fee_rate <= u128::MAX,
        fee + fee * c.service_fee_rate / 10_000 <= u128::MAX,
    ensures
        service_fee(fee, c.service_fee_rate) == fee * c.service_fee_rate / 10_000,
        charge_of(c, user, proxy, fee, fees_before).total_fee == fee + fee * c.service_fee_rate
            / 10_000,
        charge_of(c, user, proxy, fee, fees_before).estimated_fee == fee,
{
}

} // verus!
