//! The accounting state and its operations: user registration, the payment
//! ledger, tip links, and the read-only queries over them.
//!
//! Every mutating operation either succeeds and changes the state exactly as
//! its contract says, or fails with a typed [`Error`](crate::types::Error)
//! and leaves the state untouched. The hosting environment is expected to
//! authenticate the acting identity before calling a mutating operation, to
//! settle the external value transfer, and to hand in its outcome together
//! with the current ledger time.

use crate::model::{
    credit_received, credit_sent, find_link, find_user, first_holder, lemma_find_link_at,
    lemma_find_link_none, lemma_find_user_at, lemma_find_user_none, lemma_first_holder,
    lemma_sum_amounts_push, lemma_sum_amounts_take_bounds, lemma_sum_amounts_take_next,
    recent_involving, sum_amounts, tip_credited, toggled,
};
use crate::types::{Address, Error, Payment, PaymentType, TipLink, User};
use vstd::prelude::*;

verus! {

/// The four logical tables of the accounting core: the admin identity, the
/// user table, the append-only payment ledger, and the tip-link table.
pub struct StellarPassContract {
    pub admin: Option<Address>,
    pub users: Vec<User>,
    pub payments: Vec<Payment>,
    pub tip_links: Vec<TipLink>,
}

impl StellarPassContract {
    /// Well-formedness of the state. Every operation requires it and keeps
    /// it: usernames are unique; each user is paired with the tip link
    /// created alongside it; ledger ids are the row's position, so they are
    /// strictly increasing from zero with no gaps; all amounts are strictly
    /// positive; and every accumulator is bounded by the ledger's total
    /// volume, which itself fits the accumulator type.
    pub open spec fn wf(self) -> bool {
        &&& self.users@.len() == self.tip_links@.len()
        &&& self.users@.len() <= u32::MAX
        &&& self.payments@.len() <= u32::MAX
        &&& forall|i: int|
            0 <= i < self.users@.len() ==> (#[trigger] self.tip_links@[i]).username@
                == self.users@[i].username@ && self.tip_links@[i].owner
                == self.users@[i].stellar_address
        &&& forall|i: int, j: int|
            #![trigger self.users@[i], self.users@[j]]
            0 <= i < j < self.users@.len() ==> self.users@[i].username@
                != self.users@[j].username@
        &&& forall|i: int|
            0 <= i < self.payments@.len() ==> (#[trigger] self.payments@[i]).id == i as u64
        &&& forall|i: int|
            0 <= i < self.payments@.len() ==> (#[trigger] self.payments@[i]).amount > 0
        &&& 0 <= sum_amounts(self.payments@) <= i128::MAX
        &&& forall|i: int|
            0 <= i < self.users@.len() ==> 0 <= (#[trigger] self.users@[i]).total_sent
                <= sum_amounts(self.payments@)
        &&& forall|i: int|
            0 <= i < self.users@.len() ==> 0 <= (#[trigger] self.users@[i]).total_received
                <= sum_amounts(self.payments@)
        &&& forall|i: int|
            0 <= i < self.tip_links@.len() ==> 0 <= (#[trigger] self.tip_links@[i]).total_tips
                <= sum_amounts(self.payments@)
        &&& forall|i: int|
            0 <= i < self.tip_links@.len() ==> (#[trigger] self.tip_links@[i]).tip_count as int
                <= self.payments@.len()
    }

    /// The empty state: no admin, no users, no payments, no tip links.
    pub fn new() -> (s: Self)
        ensures
            s.wf(),
            s.admin is None,
            s.users@ == Seq::<User>::empty(),
            s.payments@ == Seq::<Payment>::empty(),
            s.tip_links@ == Seq::<TipLink>::empty(),
    {
        StellarPassContract {
            admin: None,
            users: Vec::new(),
            payments: Vec::new(),
            tip_links: Vec::new(),
        }
    }

    /// Record the admin identity. The host must have authenticated the
    /// caller as `admin`. No current operation consults it; it is kept for
    /// the host's own use.
    pub fn initialize(&mut self, admin: Address)
        requires
            old(self).wf(),
        ensures
            final(self).wf(),
            final(self).admin == Some(admin),
            final(self).users@ == old(self).users@,
            final(self).payments@ == old(self).payments@,
            final(self).tip_links@ == old(self).tip_links@,
    {
        self.admin = Some(admin);
    }

    /// The position of the user registered under `username`, if any.
    fn find_user_index(&self, username: &String) -> (r: Option<usize>)
        ensures
            match r {
                Some(i) => i < self.users@.len() && self.users@[i as int].username@ == username@
                    && (forall|j: int|
                    0 <= j < i ==> (#[trigger] self.users@[j]).username@ != username@),
                None => forall|j: int|
                    0 <= j < self.users@.len() ==> (#[trigger] self.users@[j]).username@
                        != username@,
            },
    {
        let n = self.users.len();
        let mut i: usize = 0;
        while i < n
            invariant
                n == self.users@.len(),
                i <= n,
                forall|j: int| 0 <= j < i ==> (#[trigger] self.users@[j]).username@ != username@,
            decreases n - i,
        {
            if self.users[i].username == *username {
                return Some(i);
            }
            i += 1;
        }
        None
    }

    /// The position of the tip link registered under `username`, if any.
    fn find_link_index(&self, username: &String) -> (r: Option<usize>)
        ensures
            match r {
                Some(i) => i < self.tip_links@.len() && self.tip_links@[i as int].username@
                    == username@ && (forall|j: int|
                    0 <= j < i ==> (#[trigger] self.tip_links@[j]).username@ != username@),
                None => forall|j: int|
                    0 <= j < self.tip_links@.len() ==> (#[trigger] self.tip_links@[j]).username@
                        != username@,
            },
    {
        let n = self.tip_links.len();
        let mut i: usize = 0;
        while i < n
            invariant
                n == self.tip_links@.len(),
                i <= n,
                forall|j: int|
                    0 <= j < i ==> (#[trigger] self.tip_links@[j]).username@ != username@,
            decreases n - i,
        {
            if self.tip_links[i].username == *username {
                return Some(i);
            }
            i += 1;
        }
        None
    }

    /// Pure read, no authorization: the user registered under `username`.
    pub fn get_user(&self, username: &String) -> (r: Option<User>)
        ensures
            r == find_user(self.users@, username@),
    {
        match self.find_user_index(username) {
            Some(i) => {
                proof {
                    lemma_find_user_at(self.users@, username@, i as int);
                }
                Some(self.users[i].clone())
            },
            None => {
                proof {
                    lemma_find_user_none(self.users@, username@);
                }
                None
            },
        }
    }

    /// Pure read, no authorization: the tip link registered under
    /// `username`.
    pub fn get_tip_link(&self, username: &String) -> (r: Option<TipLink>)
        ensures
            r == find_link(self.tip_links@, username@),
    {
        match self.find_link_index(username) {
            Some(i) => {
                proof {
                    lemma_find_link_at(self.tip_links@, username@, i as int);
                }
                Some(self.tip_links[i].clone())
            },
            None => {
                proof {
                    lemma_find_link_none(self.tip_links@, username@);
                }
                None
            },
        }
    }

    /// The id the next recorded payment will carry: the current number of
    /// ledger rows. Rows are never removed, so these ids are strictly
    /// increasing, never reused.
    fn get_next_payment_id(&self) -> (r: u64)
        requires
            self.payments@.len() <= u32::MAX,
        ensures
            r as int == self.payments@.len(),
    {
        self.payments.len() as u64
    }

    /// Fold one recorded payment into the per-user running totals: the first
    /// user controlled by `from` is credited as sender, the first controlled
    /// by `to` as receiver. An identity with no registered user is a no-op,
    /// not an error: payments may flow to and from unregistered identities.
    #[verifier::loop_isolation(false)]
    fn update_user_stats(&mut self, from: Address, to: Address, amount: i128)
        requires
            amount > 0,
            forall|i: int|
                0 <= i < old(self).users@.len() ==> 0 <= (#[trigger] old(
                    self,
                ).users@[i]).total_sent && old(self).users@[i].total_sent + amount <= i128::MAX,
            forall|i: int|
                0 <= i < old(self).users@.len() ==> 0 <= (#[trigger] old(
                    self,
                ).users@[i]).total_received && old(self).users@[i].total_received + amount
                    <= i128::MAX,
        ensures
            final(self).users@ == credit_received(
                credit_sent(old(self).users@, from, amount as int),
                to,
                amount as int,
            ),
            final(self).payments@ == old(self).payments@,
            final(self).tip_links@ == old(self).tip_links@,
            final(self).admin == old(self).admin,
    {
        proof {
            lemma_first_holder(old(self).users@, from);
        }
        let n = self.users.len();
        let mut i: usize = 0;
        let mut found = false;
        while i < n && !found
            invariant
                i <= n,
                !found ==> self.users@ == old(self).users@,
                !found ==> forall|j: int|
                    0 <= j < i ==> (#[trigger] old(self).users@[j]).stellar_address != from,
                found ==> self.users@ == credit_sent(old(self).users@, from, amount as int),
                self.payments@ == old(self).payments@,
                self.tip_links@ == old(self).tip_links@,
                self.admin == old(self).admin,
            decreases n - i, if found { 0int } else { 1int },
        {
            if self.users[i].stellar_address == from {
                let u = &self.users[i];
                let nu = User {
                    username: u.username.clone(),
                    stellar_address: u.stellar_address,
                    passkey_id: u.passkey_id.clone(),
                    created_at: u.created_at,
                    total_sent: u.total_sent + amount,
                    total_received: u.total_received,
                };
                self.users[i] = nu;
                found = true;
                proof {
                    assert(first_holder(old(self).users@, from) == i as int);
                    assert(self.users@ =~= credit_sent(old(self).users@, from, amount as int));
                }
            } else {
                i += 1;
            }
        }
        proof {
            if !found {
                let k = first_holder(old(self).users@, from);
                if k < old(self).users@.len() {
                    assert(old(self).users@[k].stellar_address == from);
                }
            }
        }
        let ghost users1 = self.users@;
        proof {
            lemma_first_holder(users1, to);
            assert(forall|j: int|
                0 <= j < users1.len() ==> (#[trigger] users1[j]).total_received == old(
                    self,
                ).users@[j].total_received);
        }
        let m = self.users.len();
        let mut i2: usize = 0;
        let mut found2 = false;
        while i2 < m && !found2
            invariant
                i2 <= m,
                m == users1.len(),
                !found2 ==> self.users@ == users1,
                !found2 ==> forall|j: int|
                    0 <= j < i2 ==> (#[trigger] users1[j]).stellar_address != to,
                found2 ==> self.users@ == credit_received(users1, to, amount as int),
                self.payments@ == old(self).payments@,
                self.tip_links@ == old(self).tip_links@,
                self.admin == old(self).admin,
            decreases m - i2, if found2 { 0int } else { 1int },
        {
            if self.users[i2].stellar_address == to {
                let u = &self.users[i2];
                let nu = User {
                    username: u.username.clone(),
                    stellar_address: u.stellar_address,
                    passkey_id: u.passkey_id.clone(),
                    created_at: u.created_at,
                    total_sent: u.total_sent,
                    total_received: u.total_received + amount,
                };
                self.users[i2] = nu;
                found2 = true;
                proof {
                    assert(first_holder(users1, to) == i2 as int);
                    assert(self.users@ =~= credit_received(users1, to, amount as int));
                }
            } else {
                i2 += 1;
            }
        }
        proof {
            if !found2 {
                let k = first_holder(users1, to);
                if k < users1.len() {
                    assert(users1[k].stellar_address == to);
                }
            }
        }
    }

    /// Record a payment of `amount` of `token` from `from` to `to`. The host
    /// must have authenticated the caller as `from`, and — for a positive
    /// amount — have asked the external transfer service to move the funds;
    /// `transfer_ok` is that call's outcome. On success the row is appended
    /// under the next sequential id and both parties' totals are updated; on
    /// any failure nothing changes.
    pub fn send_payment(
        &mut self,
        from: Address,
        to: Address,
        amount: i128,
        token: Address,
        memo: String,
        payment_type: PaymentType,
        timestamp: u64,
        transfer_ok: bool,
    ) -> (r: Result<u64, Error>)
        requires
            old(self).wf(),
            amount > 0 ==> sum_amounts(old(self).payments@) + amount <= i128::MAX,
            amount > 0 ==> old(self).payments@.len() < u32::MAX,
        ensures
            final(self).wf(),
            amount <= 0 ==> r == Err::<u64, Error>(Error::InvalidAmount) && *final(self) == *old(self),
            amount > 0 && !transfer_ok ==> r == Err::<u64, Error>(Error::TransferFailed) && *final(self) == *old(self),
            amount > 0 && transfer_ok ==> {
                &&& r == Ok::<u64, Error>(old(self).payments@.len() as u64)
                &&& final(self).payments@ == old(self).payments@.push(
                    (Payment {
                        id: old(self).payments@.len() as u64,
                        from,
                        to,
                        amount,
                        token,
                        memo,
                        timestamp,
                        payment_type,
                    }),
                )
                &&& final(self).users@ == credit_received(
                    credit_sent(old(self).users@, from, amount as int),
                    to,
                    amount as int,
                )
                &&& final(self).tip_links@ == old(self).tip_links@
                &&& final(self).admin == old(self).admin
            },
    {
        if amount <= 0 {
            return Err(Error::InvalidAmount);
        }
        if !transfer_ok {
            return Err(Error::TransferFailed);
        }
        let payment_id = self.get_next_payment_id();
        let payment = Payment {
            id: payment_id,
            from,
            to,
            amount,
            token,
            memo,
            timestamp,
            payment_type,
        };
        proof {
            lemma_sum_amounts_push(
                self.payments@,
                (Payment {
                    id: (old(self).payments@.len() as u64),
                    from,
                    to,
                    amount,
                    token,
                    memo,
                    timestamp,
                    payment_type,
                }),
            );
        }
        self.payments.push(payment);
        self.update_user_stats(from, to, amount);
        proof {
            lemma_first_holder(old(self).users@, from);
            lemma_first_holder(credit_sent(old(self).users@, from, amount as int), to);
            assert(final(self).wf());
        }
        Ok(payment_id)
    }

    /// Register `username` for the identity `stellar_address`, which the
    /// host must have authenticated. Fails with `UsernameTaken` when the
    /// username already exists; otherwise inserts the user row (with
    /// `created_at` set to `timestamp` and zeroed totals) together with its
    /// active, empty tip link — both or neither.
    pub fn register_user(
        &mut self,
        username: String,
        stellar_address: Address,
        passkey_id: String,
        timestamp: u64,
    ) -> (r: Result<(), Error>)
        requires
            old(self).wf(),
            old(self).users@.len() < u32::MAX,
        ensures
            final(self).wf(),
            find_user(old(self).users@, username@) is Some ==> r == Err::<(), Error>(
                Error::UsernameTaken,
            ) && *final(self) == *old(self),
            find_user(old(self).users@, username@) is None ==> {
                &&& r == Ok::<(), Error>(())
                &&& final(self).users@ == old(self).users@.push(
                    (User {
                        username,
                        stellar_address,
                        passkey_id,
                        created_at: timestamp,
                        total_sent: 0,
                        total_received: 0,
                    }),
                )
                &&& final(self).tip_links@ == old(self).tip_links@.push(
                    (TipLink {
                        username,
                        owner: stellar_address,
                        total_tips: 0,
                        tip_count: 0,
                        active: true,
                    }),
                )
                &&& final(self).payments@ == old(self).payments@
                &&& final(self).admin == old(self).admin
            },
    {
        match self.find_user_index(&username) {
            Some(i) => {
                proof {
                    lemma_find_user_at(self.users@, username@, i as int);
                }
                Err(Error::UsernameTaken)
            },
            None => {
                proof {
                    lemma_find_user_none(self.users@, username@);
                }
                let user = User {
                    username: username.clone(),
                    stellar_address,
                    passkey_id,
                    created_at: timestamp,
                    total_sent: 0,
                    total_received: 0,
                };
                self.users.push(user);
                let link = TipLink {
                    username,
                    owner: stellar_address,
                    total_tips: 0,
                    tip_count: 0,
                    active: true,
                };
                self.tip_links.push(link);
                Ok(())
            },
        }
    }

    /// Send a tip through the tip link registered under `username`. The tip
    /// is recorded as an ordinary payment of kind `Tip` to the link's owner
    /// — same authentication and same `transfer_ok` event as
    /// [`send_payment`](Self::send_payment) — and, on success only, folded
    /// into the link's own aggregates. A missing link fails with `NotFound`,
    /// a switched-off link with `Inactive`, and a failure of the underlying
    /// payment is passed through unchanged; on every failure nothing
    /// changes.
    pub fn send_tip(
        &mut self,
        from: Address,
        username: &String,
        amount: i128,
        token: Address,
        message: String,
        timestamp: u64,
        transfer_ok: bool,
    ) -> (r: Result<u64, Error>)
        requires
            old(self).wf(),
            amount > 0 ==> sum_amounts(old(self).payments@) + amount <= i128::MAX,
            amount > 0 ==> old(self).payments@.len() < u32::MAX,
        ensures
            final(self).wf(),
            match find_link(old(self).tip_links@, username@) {
                None => r == Err::<u64, Error>(Error::NotFound) && *final(self) == *old(self),
                Some(link) => {
                    &&& !link.active ==> r == Err::<u64, Error>(Error::Inactive) && *final(self)
                        == *old(self)
                    &&& link.active && amount <= 0 ==> r == Err::<u64, Error>(Error::InvalidAmount)
                        && *final(self) == *old(self)
                    &&& link.active && amount > 0 && !transfer_ok ==> r == Err::<u64, Error>(
                        Error::TransferFailed,
                    ) && *final(self) == *old(self)
                    &&& link.active && amount > 0 && transfer_ok ==> {
                        &&& r == Ok::<u64, Error>(old(self).payments@.len() as u64)
                        &&& final(self).payments@ == old(self).payments@.push(
                            (Payment {
                                id: old(self).payments@.len() as u64,
                                from,
                                to: link.owner,
                                amount,
                                token,
                                memo: message,
                                timestamp,
                                payment_type: PaymentType::Tip,
                            }),
                        )
                        &&& final(self).users@ == credit_received(
                            credit_sent(old(self).users@, from, amount as int),
                            link.owner,
                            amount as int,
                        )
                        &&& final(self).tip_links@ == tip_credited(
                            old(self).tip_links@,
                            username@,
                            amount as int,
                        )
                        &&& final(self).admin == old(self).admin
                    }
                },
            },
    {
        let idx = match self.find_link_index(username) {
            Some(i) => i,
            None => {
                proof {
                    lemma_find_link_none(self.tip_links@, username@);
                }
                return Err(Error::NotFound);
            },
        };
        proof {
            lemma_find_link_at(self.tip_links@, username@, idx as int);
        }
        if !self.tip_links[idx].active {
            return Err(Error::Inactive);
        }
        let owner = self.tip_links[idx].owner;
        let payment_id = match self.send_payment(
            from,
            owner,
            amount,
            token,
            message,
            PaymentType::Tip,
            timestamp,
            transfer_ok,
        ) {
            Ok(id) => id,
            Err(e) => {
                return Err(e);
            },
        };
        proof {
            lemma_sum_amounts_push(
                old(self).payments@,
                (Payment {
                    id: (old(self).payments@.len() as u64),
                    from,
                    to: owner,
                    amount,
                    token,
                    memo: message,
                    timestamp,
                    payment_type: PaymentType::Tip,
                }),
            );
        }
        let l = &self.tip_links[idx];
        let nl = TipLink {
            username: l.username.clone(),
            owner: l.owner,
            total_tips: l.total_tips + amount,
            tip_count: l.tip_count + 1,
            active: l.active,
        };
        self.tip_links[idx] = nl;
        proof {
            assert forall|j: int|
                0 <= j < old(self).tip_links@.len() && j != idx as int implies (#[trigger] old(
                self,
            ).tip_links@[j]).username@ != username@ by {
                assert(old(self).users@[j].username@ != old(self).users@[idx as int].username@);
            }
            assert(self.tip_links@ =~= tip_credited(
                old(self).tip_links@,
                username@,
                amount as int,
            ));
            assert(final(self).wf());
        }
        Ok(payment_id)
    }

    /// Flip the `active` flag of the tip link registered under `username`.
    /// The host must have authenticated the caller as `owner`; only the
    /// link's owner may toggle it. Returns the flag's new value.
    pub fn toggle_tip_link(&mut self, username: &String, owner: Address) -> (r: Result<bool, Error>)
        requires
            old(self).wf(),
        ensures
            final(self).wf(),
            match find_link(old(self).tip_links@, username@) {
                None => r == Err::<bool, Error>(Error::NotFound) && *final(self) == *old(self),
                Some(link) => {
                    &&& link.owner != owner ==> r == Err::<bool, Error>(Error::Unauthorized)
                        && *final(self) == *old(self)
                    &&& link.owner == owner ==> {
                        &&& r == Ok::<bool, Error>(!link.active)
                        &&& final(self).tip_links@ == toggled(old(self).tip_links@, username@)
                        &&& final(self).users@ == old(self).users@
                        &&& final(self).payments@ == old(self).payments@
                        &&& final(self).admin == old(self).admin
                    }
                },
            },
    {
        let idx = match self.find_link_index(username) {
            Some(i) => i,
            None => {
                proof {
                    lemma_find_link_none(self.tip_links@, username@);
                }
                return Err(Error::NotFound);
            },
        };
        proof {
            lemma_find_link_at(self.tip_links@, username@, idx as int);
        }
        if self.tip_links[idx].owner != owner {
            return Err(Error::Unauthorized);
        }
        let l = &self.tip_links[idx];
        let new_status = !l.active;
        let nl = TipLink {
            username: l.username.clone(),
            owner: l.owner,
            total_tips: l.total_tips,
            tip_count: l.tip_count,
            active: new_status,
        };
        self.tip_links[idx] = nl;
        proof {
            assert forall|j: int|
                0 <= j < old(self).tip_links@.len() && j != idx as int implies (#[trigger] old(
                self,
            ).tip_links@[j]).username@ != username@ by {
                assert(old(self).users@[j].username@ != old(self).users@[idx as int].username@);
            }
            assert(self.tip_links@ =~= toggled(old(self).tip_links@, username@));
            assert(final(self).wf());
        }
        Ok(new_status)
    }

    /// Pure read, no authorization: the most recent payments involving
    /// `user_address` (as sender or receiver), newest first, at most `limit`
    /// of them.
    pub fn get_user_payments(&self, user_address: Address, limit: u32) -> (r: Vec<Payment>)
        ensures
            r@ == recent_involving(self.payments@, user_address, limit as nat),
    {
        let mut r: Vec<Payment> = Vec::new();
        let mut i: usize = self.payments.len();
        proof {
            assert(self.payments@.take(i as int) =~= self.payments@);
            assert(Seq::<Payment>::empty() + recent_involving(
                self.payments@,
                user_address,
                limit as nat,
            ) =~= recent_involving(self.payments@, user_address, limit as nat));
        }
        while i > 0 && r.len() < limit as usize
            invariant
                i <= self.payments@.len(),
                r@.len() <= limit as nat,
                recent_involving(self.payments@, user_address, limit as nat) =~= r@
                    + recent_involving(
                    self.payments@.take(i as int),
                    user_address,
                    (limit as nat - r@.len()) as nat,
                ),
            decreases i,
        {
            let p = &self.payments[i - 1];
            proof {
                assert(self.payments@.take(i as int).drop_last() =~= self.payments@.take(
                    i as int - 1,
                ));
                assert(self.payments@.take(i as int).last() == self.payments@[i as int - 1]);
            }
            if p.from == user_address || p.to == user_address {
                let ghost r0 = r@;
                r.push(p.clone());
                proof {
                    assert(r@ =~= r0 + seq![self.payments@[i as int - 1]]);
                    assert(r0 + (seq![self.payments@[i as int - 1]] + recent_involving(
                        self.payments@.take(i as int - 1),
                        user_address,
                        (limit as nat - r@.len()) as nat,
                    )) =~= r@ + recent_involving(
                        self.payments@.take(i as int - 1),
                        user_address,
                        (limit as nat - r@.len()) as nat,
                    ));
                }
            }
            i -= 1;
        }
        proof {
            if i == 0 {
                assert(self.payments@.take(0) =~= Seq::<Payment>::empty());
            }
            assert(r@ + Seq::<Payment>::empty() =~= r@);
        }
        r
    }

    /// Pure read, no authorization: the number of registered users, the
    /// number of ledger rows, and the total volume — the sum of `amount`
    /// over every stored payment, recomputed by a full scan.
    pub fn get_stats(&self) -> (r: (u32, u32, i128))
        requires
            self.wf(),
        ensures
            r.0 as int == self.users@.len(),
            r.1 as int == self.payments@.len(),
            r.2 as int == sum_amounts(self.payments@),
    {
        let n = self.payments.len();
        let mut total_volume: i128 = 0;
        let mut i: usize = 0;
        while i < n
            invariant
                self.wf(),
                n == self.payments@.len(),
                i <= n,
                total_volume as int == sum_amounts(self.payments@.take(i as int)),
            decreases n - i,
        {
            proof {
                lemma_sum_amounts_take_next(self.payments@, i as int);
                lemma_sum_amounts_take_bounds(self.payments@, i as int + 1);
            }
            total_volume = total_volume + self.payments[i].amount;
            i += 1;
        }
        proof {
            assert(self.payments@.take(n as int) =~= self.payments@);
        }
        (self.users.len() as u32, self.payments.len() as u32, total_volume)
    }
}

} // verus!
