//! Types shared by all pallets: accounts, block numbers, moments, balances,
//! the origin of a call, and saturating arithmetic.
use vstd::prelude::*;

verus! {

/// An account: the 32 bytes of its public key.
pub type AccountId = [u8; 32];

/// The height of a block.
pub type BlockNumber = u32;

/// A timestamp in milliseconds since the unix epoch.
pub type Moment = u64;

/// An amount of the native token.
pub type Balance = u128;

/// Who dispatches a call.
#[derive(Clone, Copy, Debug)]
pub enum Origin {
    /// The privileged origin.
    Root,
    /// A call signed by an account.
    Signed(AccountId),
    /// An unsigned call.
    Unsigned,
}

/// The signing account of an origin, if it is signed.
pub open spec fn signer(origin: Origin) -> Option<AccountId> {
    match origin {
        Origin::Signed(who) => Some(who),
        _ => None,
    }
}

/// The signing account of `origin`, or `None` when the call is not signed.
pub fn ensure_signed(origin: Origin) -> (r: Option<AccountId>)
    ensures
        r == signer(origin),
{
    match origin {
        Origin::Signed(who) => Some(who),
        _ => None,
    }
}

/// Whether `origin` is the privileged origin.
pub fn ensure_root(origin: Origin) -> (r: bool)
    ensures
        r == (origin is Root),
{
    match origin {
        Origin::Root => true,
        _ => false,
    }
}

/// Whether the two byte strings are equal.
pub fn same_bytes(a: &Vec<u8>, b: &Vec<u8>) -> (r: bool)
    ensures
        r == (a@ == b@),
{
    if a.len() != b.len() {
        return false;
    }
    let mut i: usize = 0;
    while i < a.len()
        invariant
            a@.len() == b@.len(),
            i <= a@.len(),
            forall|t: int| 0 <= t < i ==> a@[t] == b@[t],
        decreases a@.len() - i,
    {
        if a[i] != b[i] {
            return false;
        }
        i = i + 1;
    }
    assert(a@ =~= b@);
    true
}

/// `a * b`, or `u128::MAX` when the product does not fit.
pub open spec fn sat_mul(a: u128, b: u128) -> u128 {
    if a * b > u128::MAX {
        u128::MAX
    } else {
        (a * b) as u128
    }
}

/// Saturating multiplication of two `u128`s.
pub fn saturating_mul_u128(a: u128, b: u128) -> (r: u128)
    ensures
        r == sat_mul(a, b),
{
    match a.checked_mul(b) {
        Some(p) => p,
        None => u128::MAX,
    }
}

} // verus!

verus! {

/// A transfer of the native token that a call asks the balances pallet to make.
#[derive(Clone, Copy, Debug)]
pub struct Transfer {
    pub from: AccountId,
    pub to: AccountId,
    pub amount: Balance,
}

} // verus!
