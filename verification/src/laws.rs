//! Laws that relate the operations of the accounting core to one another,
//! stated over the same spec functions that the operations' contracts use
//! and proved for every input they allow.

use crate::model::{
    credit_received, credit_sent, find_link, find_user, first_holder, lemma_find_link_at,
    lemma_find_link_none, lemma_find_user_at, lemma_find_user_none, lemma_first_holder, toggled,
    with_received, with_sent,
};
use crate::state::StellarPassContract;
use crate::types::{Address, TipLink, User};
use vstd::prelude::*;

verus! {

/// A successful registration is immediately visible. Registration of a
/// username that no user row and no link row carries appends one user row
/// `u` and its paired link row `l`; afterwards a lookup by that username
/// returns exactly `u`, and the tip-link lookup exactly `l`. In particular a
/// second registration of the same username now finds it taken.
pub proof fn lemma_register_then_lookup(
    users: Seq<User>,
    links: Seq<TipLink>,
    u: User,
    l: TipLink,
)
    requires
        forall|i: int| 0 <= i < users.len() ==> (#[trigger] users[i]).username@ != u.username@,
        forall|i: int| 0 <= i < links.len() ==> (#[trigger] links[i]).username@ != u.username@,
        l.username@ == u.username@,
    ensures
        find_user(users.push(u), u.username@) == Some(u),
        find_link(links.push(l), u.username@) == Some(l),
{
    lemma_find_user_at(users.push(u), u.username@, users.len() as int);
    lemma_find_link_at(links.push(l), u.username@, links.len() as int);
}

/// Ledger ids are assigned in strictly increasing order starting at zero,
/// with no gaps and no repeats: in every well-formed state the id of a row
/// is its position in the ledger, so later rows carry strictly larger ids.
pub proof fn lemma_payment_ids_sequential(s: StellarPassContract)
    requires
        s.wf(),
    ensures
        forall|i: int| 0 <= i < s.payments@.len() ==> (#[trigger] s.payments@[i]).id == i as u64,
        forall|i: int, j: int|
            #![trigger s.payments@[i], s.payments@[j]]
            0 <= i < j < s.payments@.len() ==> s.payments@[i].id < s.payments@[j].id,
{
}

/// Crediting a sent payment touches exactly one row: the first user
/// controlled by the sending identity has its sent total raised by exactly
/// the amount, every other row is unchanged, and when no registered user
/// holds the identity the table is unchanged — no error, no stray record.
pub proof fn lemma_credit_sent_effect(users: Seq<User>, a: Address, amt: int)
    ensures
        credit_sent(users, a, amt).len() == users.len(),
        forall|i: int|
            0 <= i < users.len() && i == first_holder(users, a) ==> #[trigger] credit_sent(
                users,
                a,
                amt,
            )[i] == with_sent(users[i], amt),
        forall|i: int|
            0 <= i < users.len() && i != first_holder(users, a) ==> #[trigger] credit_sent(
                users,
                a,
                amt,
            )[i] == users[i],
        first_holder(users, a) < users.len() ==> users[first_holder(users, a)].stellar_address
            == a,
        (forall|i: int| 0 <= i < users.len() ==> (#[trigger] users[i]).stellar_address != a)
            ==> credit_sent(users, a, amt) == users,
{
    lemma_first_holder(users, a);
}

/// The receiving counterpart of [`lemma_credit_sent_effect`]: exactly the
/// first user controlled by the receiving identity has its received total
/// raised by exactly the amount.
pub proof fn lemma_credit_received_effect(users: Seq<User>, a: Address, amt: int)
    ensures
        credit_received(users, a, amt).len() == users.len(),
        forall|i: int|
            0 <= i < users.len() && i == first_holder(users, a) ==> #[trigger] credit_received(
                users,
                a,
                amt,
            )[i] == with_received(users[i], amt),
        forall|i: int|
            0 <= i < users.len() && i != first_holder(users, a) ==> #[trigger] credit_received(
                users,
                a,
                amt,
            )[i] == users[i],
        first_holder(users, a) < users.len() ==> users[first_holder(users, a)].stellar_address
            == a,
        (forall|i: int| 0 <= i < users.len() ==> (#[trigger] users[i]).stellar_address != a)
            ==> credit_received(users, a, amt) == users,
{
    lemma_first_holder(users, a);
}

/// Toggling the same tip link twice restores the whole table: each call
/// flips only the `active` flag of the link under the given username, so
/// two calls leave every link as it was.
pub proof fn lemma_toggle_twice(links: Seq<TipLink>, name: Seq<char>)
    ensures
        toggled(toggled(links, name), name) =~= links,
{
    assert forall|i: int| 0 <= i < links.len() implies toggled(toggled(links, name), name)[i]
        == links[i] by {
        assert(toggled(links, name)[i].username@ == links[i].username@);
    }
}

/// User and tip link live and die together: in every well-formed state a
/// lookup by username finds a user exactly when it finds a tip link, and
/// then the link is the one created with that user — same username, owned
/// by the user's identity.
pub proof fn lemma_user_link_paired(s: StellarPassContract, name: Seq<char>)
    requires
        s.wf(),
    ensures
        match (find_user(s.users@, name), find_link(s.tip_links@, name)) {
            (Some(u), Some(l)) => l.owner == u.stellar_address && u.username@ == name
                && l.username@ == name,
            (None, None) => true,
            _ => false,
        },
{
    let users = s.users@;
    let links = s.tip_links@;
    if exists|i: int| 0 <= i < users.len() && (#[trigger] users[i]).username@ == name {
        let i = choose|i: int| 0 <= i < users.len() && (#[trigger] users[i]).username@ == name;
        assert forall|j: int|
            0 <= j < users.len() && j != i implies (#[trigger] users[j]).username@ != name by {
            assert(users[i].username@ != users[j].username@);
        }
        lemma_find_user_at(users, name, i);
        lemma_find_link_at(links, name, i);
    } else {
        lemma_find_user_none(users, name);
        lemma_find_link_none(links, name);
    }
}

} // verus!
