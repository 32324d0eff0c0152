use vstd::prelude::*;

verus! {

/// An on-ledger principal. The hosting environment authenticates callers
/// against these identities and settles value transfers between them; the
/// accounting core itself only stores and compares them.
#[derive(Clone, Copy, PartialEq, Eq, Structural, Debug, Hash)]
pub struct Address(pub u64);

/// The category a payment row is filed under.
#[derive(Clone, Copy, PartialEq, Eq, Structural, Debug)]
pub enum PaymentType {
    Transfer,
    Tip,
    Reward,
    Gift,
}

/// Every way an operation of the accounting core can fail. Mutating
/// operations return one of these without having changed any state.
#[derive(Clone, Copy, PartialEq, Eq, Structural, Debug)]
pub enum Error {
    /// The username is already registered.
    UsernameTaken,
    /// The payment amount was not strictly positive.
    InvalidAmount,
    /// No tip link exists under the given username.
    NotFound,
    /// The tip link exists but its owner has switched it off.
    Inactive,
    /// The caller does not own the resource it tried to change.
    Unauthorized,
    /// The external value transfer did not go through.
    TransferFailed,
}

/// A registered user: a unique username bound to the identity that controls
/// it, with running totals over the payment ledger.
#[derive(Debug)]
pub struct User {
    pub username: String,
    pub stellar_address: Address,
    pub passkey_id: String,
    pub created_at: u64,
    pub total_sent: i128,
    pub total_received: i128,
}

impl Clone for User {
    fn clone(&self) -> (res: Self)
        ensures
            res == *self,
    {
        User {
            username: self.username.clone(),
            stellar_address: self.stellar_address,
            passkey_id: self.passkey_id.clone(),
            created_at: self.created_at,
            total_sent: self.total_sent,
            total_received: self.total_received,
        }
    }
}

/// One immutable row of the append-only payment ledger.
#[derive(Debug)]
pub struct Payment {
    pub id: u64,
    pub from: Address,
    pub to: Address,
    pub amount: i128,
    pub token: Address,
    pub memo: String,
    pub timestamp: u64,
    pub payment_type: PaymentType,
}

impl Clone for Payment {
    fn clone(&self) -> (res: Self)
        ensures
            res == *self,
    {
        Payment {
            id: self.id,
            from: self.from,
            to: self.to,
            amount: self.amount,
            token: self.token,
            memo: self.memo.clone(),
            timestamp: self.timestamp,
            payment_type: self.payment_type,
        }
    }
}

/// A user's tip page: created together with the user, never deleted, and
/// switched on and off by `active`. Aggregates the tips received through it.
#[derive(Debug)]
pub struct TipLink {
    pub username: String,
    pub owner: Address,
    pub total_tips: i128,
    pub tip_count: u64,
    pub active: bool,
}

impl Clone for TipLink {
    fn clone(&self) -> (res: Self)
        ensures
            res == *self,
    {
        TipLink {
            username: self.username.clone(),
            owner: self.owner,
            total_tips: self.total_tips,
            tip_count: self.tip_count,
            active: self.active,
        }
    }
}

} // verus!
