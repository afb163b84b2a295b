//! The ledger as mathematics: a sequence of accounts in the order in which
//! they were registered, and what registering, removing and crediting do
//! to it.

use vstd::prelude::*;

verus! {

/// One user's account: the identifier that keys it, the name shown on the
/// leaderboard, and the points accumulated so far.
pub struct Account {
    pub id: Seq<char>,
    pub name: Seq<char>,
    pub points: int,
}

/// A request to add `delta` points to the account of `id`.
pub struct Credit {
    pub id: Seq<char>,
    pub delta: int,
}

/// Whether some account is keyed by `id`.
pub open spec fn registered(accounts: Seq<Account>, id: Seq<char>) -> bool {
    exists|i: int| 0 <= i < accounts.len() && (#[trigger] accounts[i]).id == id
}

/// No two accounts share an identifier.
pub open spec fn unique_ids(accounts: Seq<Account>) -> bool {
    forall|i: int, j: int|
        0 <= i < j < accounts.len() ==> (#[trigger] accounts[i]).id != (#[trigger] accounts[j]).id
}

/// The place of the account keyed by `id`, where there is one.
pub open spec fn position(accounts: Seq<Account>, id: Seq<char>) -> int {
    choose|i: int| 0 <= i < accounts.len() && (#[trigger] accounts[i]).id == id
}

/// The points of the account keyed by `id`, where there is one.
pub open spec fn points_of(accounts: Seq<Account>, id: Seq<char>) -> int {
    accounts[position(accounts, id)].points
}

/// The accounts after a new one is registered: it comes last and starts
/// with no points.
pub open spec fn enrolled(accounts: Seq<Account>, id: Seq<char>, name: Seq<char>) -> Seq<Account> {
    accounts.push(Account { id, name, points: 0 })
}

/// The accounts after the one keyed by `id` is removed. The others keep
/// their order.
pub open spec fn expelled(accounts: Seq<Account>, id: Seq<char>) -> Seq<Account> {
    accounts.remove(position(accounts, id))
}

/// The accounts after `delta` points are added to the one keyed by `id`.
/// Every other account, and the order of all of them, stays as it is.
pub open spec fn credited(accounts: Seq<Account>, id: Seq<char>, delta: int) -> Seq<Account> {
    Seq::new(
        accounts.len(),
        |i: int|
            if accounts[i].id == id {
                Account { id: accounts[i].id, name: accounts[i].name, points: accounts[i].points + delta }
            } else {
                accounts[i]
            },
    )
}

/// The accounts after a series of credits is applied, first to last.
pub open spec fn credited_all(accounts: Seq<Account>, credits: Seq<Credit>) -> Seq<Account>
    decreases credits.len(),
{
    if credits.len() == 0 {
        accounts
    } else {
        credited(
            credited_all(accounts, credits.drop_last()),
            credits.last().id,
            credits.last().delta,
        )
    }
}

/// The sum of the credits of a series that are addressed to `id`.
pub open spec fn total_for(credits: Seq<Credit>, id: Seq<char>) -> int
    decreases credits.len(),
{
    if credits.len() == 0 {
        0
    } else {
        total_for(credits.drop_last(), id) + if credits.last().id == id {
            credits.last().delta
        } else {
            0
        }
    }
}

/// Where identifiers are unique, the account at a place is the one that its
/// identifier finds.
pub proof fn lemma_position_unique(accounts: Seq<Account>, i: int)
    requires
        unique_ids(accounts),
        0 <= i < accounts.len(),
    ensures
        registered(accounts, accounts[i].id),
        position(accounts, accounts[i].id) == i,
{
    let id = accounts[i].id;
    let p = position(accounts, id);
    assert(0 <= p < accounts.len() && accounts[p].id == id);
    if p < i {
        assert(accounts[p].id != accounts[i].id);
    } else if i < p {
        assert(accounts[i].id != accounts[p].id);
    }
}

/// Crediting changes neither who is registered, nor the uniqueness of the
/// identifiers, nor anyone's place.
pub proof fn lemma_credit_keeps_accounts(accounts: Seq<Account>, id: Seq<char>, delta: int, other: Seq<char>)
    ensures
        credited(accounts, id, delta).len() == accounts.len(),
        registered(credited(accounts, id, delta), other) == registered(accounts, other),
        unique_ids(accounts) ==> unique_ids(credited(accounts, id, delta)),
        unique_ids(accounts) && registered(accounts, other) ==> position(
            credited(accounts, id, delta),
            other,
        ) == position(accounts, other),
{
    let after = credited(accounts, id, delta);
    assert forall|i: int| 0 <= i < accounts.len() implies (#[trigger] after[i]).id == accounts[i].id by {}
    if registered(accounts, other) {
        let i = position(accounts, other);
        assert(after[i].id == other);
    }
    if registered(after, other) {
        let i = position(after, other);
        assert(accounts[i].id == other);
    }
    if unique_ids(accounts) {
        assert forall|i: int, j: int| 0 <= i < j < after.len() implies (#[trigger] after[i]).id != (
        #[trigger] after[j]).id by {
            assert(accounts[i].id != accounts[j].id);
        }
        if registered(accounts, other) {
            let i = position(accounts, other);
            assert(after[i].id == accounts[i].id);
            lemma_position_unique(after, i);
        }
    }
}

/// A credit adds its points to the account it is addressed to and leaves
/// the points of every other account alone.
pub proof fn lemma_credit_points(accounts: Seq<Account>, id: Seq<char>, delta: int, other: Seq<char>)
    requires
        unique_ids(accounts),
        registered(accounts, other),
    ensures
        points_of(credited(accounts, id, delta), other) == points_of(accounts, other) + if other == id {
            delta
        } else {
            0
        },
{
    lemma_credit_keeps_accounts(accounts, id, delta, other);
    let i = position(accounts, other);
    assert(accounts[i].id == other);
}

/// Crediting an identifier that keys no account changes nothing.
pub proof fn lemma_credit_unregistered(accounts: Seq<Account>, id: Seq<char>, delta: int)
    requires
        !registered(accounts, id),
    ensures
        credited(accounts, id, delta) == accounts,
{
    assert forall|i: int| 0 <= i < accounts.len() implies accounts[i].id != id by {
        if accounts[i].id == id {
            assert(registered(accounts, id));
        }
    }
    assert(credited(accounts, id, delta) =~= accounts);
}

/// Two credits to one account, one after the other, leave the ledger as a
/// single credit of their sum does.
pub proof fn lemma_credits_add_up(accounts: Seq<Account>, id: Seq<char>, first: int, second: int)
    ensures
        credited(credited(accounts, id, first), id, second) == credited(accounts, id, first + second),
{
    assert(credited(credited(accounts, id, first), id, second) =~= credited(
        accounts,
        id,
        first + second,
    ));
}

/// Two credits leave the same ledger in either order, whichever accounts
/// they are addressed to.
pub proof fn lemma_credits_commute(
    accounts: Seq<Account>,
    one: Seq<char>,
    delta_one: int,
    other: Seq<char>,
    delta_other: int,
)
    ensures
        credited(credited(accounts, one, delta_one), other, delta_other) == credited(
            credited(accounts, other, delta_other),
            one,
            delta_one,
        ),
{
    assert(credited(credited(accounts, one, delta_one), other, delta_other) =~= credited(
        credited(accounts, other, delta_other),
        one,
        delta_one,
    ));
}

/// After any series of credits every account holds what it held before plus
/// the sum of the credits addressed to it: none is lost and none counts
/// twice, however the credits to different accounts are interleaved.
pub proof fn lemma_credits_accumulate(accounts: Seq<Account>, credits: Seq<Credit>)
    ensures
        credited_all(accounts, credits).len() == accounts.len(),
        forall|i: int|
            0 <= i < accounts.len() ==> (#[trigger] credited_all(accounts, credits)[i]) == (Account {
                id: accounts[i].id,
                name: accounts[i].name,
                points: accounts[i].points + total_for(credits, accounts[i].id),
            }),
    decreases credits.len(),
{
    if credits.len() > 0 {
        lemma_credits_accumulate(accounts, credits.drop_last());
    }
}

/// The points of a registered account after a series of credits are its
/// points before plus the sum of the credits addressed to it.
pub proof fn lemma_points_after_credits(accounts: Seq<Account>, credits: Seq<Credit>, id: Seq<char>)
    requires
        unique_ids(accounts),
        registered(accounts, id),
    ensures
        registered(credited_all(accounts, credits), id),
        points_of(credited_all(accounts, credits), id) == points_of(accounts, id) + total_for(
            credits,
            id,
        ),
{
    lemma_credits_accumulate(accounts, credits);
    let after = credited_all(accounts, credits);
    let i = position(accounts, id);
    assert(accounts[i].id == id);
    assert(after[i].id == id);
    assert forall|a: int, b: int| 0 <= a < b < after.len() implies (#[trigger] after[a]).id != (
    #[trigger] after[b]).id by {
        assert(accounts[a].id != accounts[b].id);
    }
    lemma_position_unique(after, i);
}

/// The credits addressed to `id` sum to their number where each of them is
/// a single point.
pub proof fn lemma_total_of_single_points(credits: Seq<Credit>, id: Seq<char>)
    requires
        forall|k: int| 0 <= k < credits.len() ==> (#[trigger] credits[k]) == (Credit { id, delta: 1 }),
    ensures
        total_for(credits, id) == credits.len(),
    decreases credits.len(),
{
    if credits.len() > 0 {
        let rest = credits.drop_last();
        assert forall|k: int| 0 <= k < rest.len() implies (#[trigger] rest[k]) == (Credit {
            id,
            delta: 1,
        }) by {
            assert(rest[k] == credits[k]);
        }
        lemma_total_of_single_points(rest, id);
        assert(credits.last() == credits[credits.len() - 1]);
    }
}

/// An account that starts with no points and is credited a single point
/// `n` times holds exactly `n` points afterwards.
pub proof fn lemma_no_update_lost(accounts: Seq<Account>, credits: Seq<Credit>, id: Seq<char>)
    requires
        unique_ids(accounts),
        registered(accounts, id),
        points_of(accounts, id) == 0,
        forall|k: int| 0 <= k < credits.len() ==> (#[trigger] credits[k]) == (Credit { id, delta: 1 }),
    ensures
        points_of(credited_all(accounts, credits), id) == credits.len(),
{
    lemma_points_after_credits(accounts, credits, id);
    lemma_total_of_single_points(credits, id);
}

} // verus!
