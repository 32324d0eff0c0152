//! The mathematical model of the accounting state: spec functions that the
//! contracts of the executable operations are stated over, and the lemmas
//! that characterise them.

use crate::types::{Address, Payment, TipLink, User};
use vstd::prelude::*;

verus! {

/// Sum of the amounts of a ledger segment, oldest row first.
pub open spec fn sum_amounts(ps: Seq<Payment>) -> int
    decreases ps.len(),
{
    if ps.len() == 0 {
        0
    } else {
        sum_amounts(ps.drop_last()) + ps.last().amount
    }
}

pub proof fn lemma_sum_amounts_push(ps: Seq<Payment>, p: Payment)
    ensures
        sum_amounts(ps.push(p)) == sum_amounts(ps) + p.amount,
{
    assert(ps.push(p).drop_last() =~= ps);
}

pub proof fn lemma_sum_amounts_take_next(ps: Seq<Payment>, i: int)
    requires
        0 <= i < ps.len(),
    ensures
        sum_amounts(ps.take(i + 1)) == sum_amounts(ps.take(i)) + ps[i].amount,
{
    assert(ps.take(i + 1).drop_last() =~= ps.take(i));
    assert(ps.take(i + 1).last() == ps[i]);
}

pub proof fn lemma_sum_amounts_take_nonneg(ps: Seq<Payment>, i: int)
    requires
        0 <= i <= ps.len(),
        forall|j: int| 0 <= j < ps.len() ==> (#[trigger] ps[j]).amount > 0,
    ensures
        0 <= sum_amounts(ps.take(i)),
    decreases i,
{
    if i > 0 {
        lemma_sum_amounts_take_next(ps, i - 1);
        lemma_sum_amounts_take_nonneg(ps, i - 1);
    }
}

/// Over a ledger of strictly positive amounts, the sum of any prefix lies
/// between zero and the sum of the whole ledger.
pub proof fn lemma_sum_amounts_take_bounds(ps: Seq<Payment>, i: int)
    requires
        0 <= i <= ps.len(),
        forall|j: int| 0 <= j < ps.len() ==> (#[trigger] ps[j]).amount > 0,
    ensures
        0 <= sum_amounts(ps.take(i)) <= sum_amounts(ps),
    decreases ps.len() - i,
{
    lemma_sum_amounts_take_nonneg(ps, i);
    if i == ps.len() {
        assert(ps.take(i) =~= ps);
    } else {
        lemma_sum_amounts_take_next(ps, i);
        lemma_sum_amounts_take_bounds(ps, i + 1);
    }
}

/// The user a lookup by username returns: the first row whose username
/// matches, scanning from the front of the table.
pub open spec fn find_user(users: Seq<User>, name: Seq<char>) -> Option<User>
    decreases users.len(),
{
    if users.len() == 0 {
        None
    } else if users[0].username@ == name {
        Some(users[0])
    } else {
        find_user(users.skip(1), name)
    }
}

/// The tip link a lookup by username returns.
pub open spec fn find_link(links: Seq<TipLink>, name: Seq<char>) -> Option<TipLink>
    decreases links.len(),
{
    if links.len() == 0 {
        None
    } else if links[0].username@ == name {
        Some(links[0])
    } else {
        find_link(links.skip(1), name)
    }
}

pub proof fn lemma_find_user_at(users: Seq<User>, name: Seq<char>, i: int)
    requires
        0 <= i < users.len(),
        users[i].username@ == name,
        forall|j: int| 0 <= j < i ==> (#[trigger] users[j]).username@ != name,
    ensures
        find_user(users, name) == Some(users[i]),
    decreases i,
{
    if i > 0 {
        lemma_find_user_at(users.skip(1), name, i - 1);
    }
}

pub proof fn lemma_find_user_none(users: Seq<User>, name: Seq<char>)
    requires
        forall|j: int| 0 <= j < users.len() ==> (#[trigger] users[j]).username@ != name,
    ensures
        find_user(users, name) is None,
    decreases users.len(),
{
    if users.len() > 0 {
        lemma_find_user_none(users.skip(1), name);
    }
}

pub proof fn lemma_find_link_at(links: Seq<TipLink>, name: Seq<char>, i: int)
    requires
        0 <= i < links.len(),
        links[i].username@ == name,
        forall|j: int| 0 <= j < i ==> (#[trigger] links[j]).username@ != name,
    ensures
        find_link(links, name) == Some(links[i]),
    decreases i,
{
    if i > 0 {
        lemma_find_link_at(links.skip(1), name, i - 1);
    }
}

pub proof fn lemma_find_link_none(links: Seq<TipLink>, name: Seq<char>)
    requires
        forall|j: int| 0 <= j < links.len() ==> (#[trigger] links[j]).username@ != name,
    ensures
        find_link(links, name) is None,
    decreases links.len(),
{
    if links.len() > 0 {
        lemma_find_link_none(links.skip(1), name);
    }
}

/// The user, with `amt` added to its sent total.
pub open spec fn with_sent(u: User, amt: int) -> User {
    User {
        username: u.username,
        stellar_address: u.stellar_address,
        passkey_id: u.passkey_id,
        created_at: u.created_at,
        total_sent: (u.total_sent + amt) as i128,
        total_received: u.total_received,
    }
}

/// The user, with `amt` added to its received total.
pub open spec fn with_received(u: User, amt: int) -> User {
    User {
        username: u.username,
        stellar_address: u.stellar_address,
        passkey_id: u.passkey_id,
        created_at: u.created_at,
        total_sent: u.total_sent,
        total_received: (u.total_received + amt) as i128,
    }
}

/// The smallest index whose user is controlled by `a`, or the table's
/// length when no user is.
pub open spec fn first_holder(users: Seq<User>, a: Address) -> int
    decreases users.len(),
{
    if users.len() == 0 {
        0
    } else if users[0].stellar_address == a {
        0
    } else {
        1 + first_holder(users.skip(1), a)
    }
}

pub proof fn lemma_first_holder(users: Seq<User>, a: Address)
    ensures
        0 <= first_holder(users, a) <= users.len(),
        first_holder(users, a) < users.len() ==> users[first_holder(users, a)].stellar_address
            == a,
        forall|j: int| 0 <= j < first_holder(users, a) ==> (#[trigger] users[j]).stellar_address
            != a,
    decreases users.len(),
{
    if users.len() > 0 && users[0].stellar_address != a {
        lemma_first_holder(users.skip(1), a);
        assert forall|j: int| 0 <= j < first_holder(users, a) implies (#[trigger] users[j]).stellar_address != a by {
            if j > 0 {
                assert(users.skip(1)[j - 1] == users[j]);
            }
        }
    }
}

/// The user table after the sent total of the first user controlled by `a`
/// is raised by `amt`; unchanged when no registered user holds `a`.
pub open spec fn credit_sent(users: Seq<User>, a: Address, amt: int) -> Seq<User> {
    let k = first_holder(users, a);
    if k < users.len() {
        users.update(k, with_sent(users[k], amt))
    } else {
        users
    }
}

/// The user table after the received total of the first user controlled by
/// `a` is raised by `amt`; unchanged when no registered user holds `a`.
pub open spec fn credit_received(users: Seq<User>, a: Address, amt: int) -> Seq<User> {
    let k = first_holder(users, a);
    if k < users.len() {
        users.update(k, with_received(users[k], amt))
    } else {
        users
    }
}

/// The tip link under `name`, with one tip of `amt` folded into its
/// aggregates; every other link unchanged.
pub open spec fn tip_credited(links: Seq<TipLink>, name: Seq<char>, amt: int) -> Seq<TipLink> {
    links.map_values(
        |l: TipLink|
            if l.username@ == name {
                TipLink {
                    username: l.username,
                    owner: l.owner,
                    total_tips: (l.total_tips + amt) as i128,
                    tip_count: (l.tip_count + 1) as u64,
                    active: l.active,
                }
            } else {
                l
            },
    )
}

/// The tip link under `name` with its `active` flag flipped; every other link
/// unchanged.
pub open spec fn toggled(links: Seq<TipLink>, name: Seq<char>) -> Seq<TipLink> {
    links.map_values(
        |l: TipLink|
            if l.username@ == name {
                TipLink {
                    username: l.username,
                    owner: l.owner,
                    total_tips: l.total_tips,
                    tip_count: l.tip_count,
                    active: !l.active,
                }
            } else {
                l
            },
    )
}

pub open spec fn involves(p: Payment, a: Address) -> bool {
    p.from == a || p.to == a
}

/// The payments involving `a`, most recent first, cut off after `limit`
/// rows.
pub open spec fn recent_involving(ps: Seq<Payment>, a: Address, limit: nat) -> Seq<Payment>
    decreases ps.len(),
{
    if ps.len() == 0 || limit == 0 {
        Seq::empty()
    } else if involves(ps.last(), a) {
        seq![ps.last()] + recent_involving(ps.drop_last(), a, (limit - 1) as nat)
    } else {
        recent_involving(ps.drop_last(), a, limit)
    }
}

} // verus!
