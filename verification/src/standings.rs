//! The order of the leaderboard: accounts by points, highest first, and
//! among equal points in the order in which they were registered.

use vstd::prelude::*;
use vstd::seq_lib::{to_multiset_build, to_multiset_insert};

use crate::accounts::Account;

verus! {

/// One line of the leaderboard.
pub struct Standing {
    pub name: Seq<char>,
    pub points: int,
}

/// The leaderboard line of an account.
pub open spec fn standing(account: Account) -> Standing {
    Standing { name: account.name, points: account.points }
}

/// The leaderboard lines of a sequence of accounts, in the same order.
pub open spec fn standings(accounts: Seq<Account>) -> Seq<Standing> {
    Seq::new(accounts.len(), |i: int| standing(accounts[i]))
}

/// The points never rise from one place to the next.
pub open spec fn descending(accounts: Seq<Account>) -> bool {
    forall|i: int, j: int|
        0 <= i < j < accounts.len() ==> (#[trigger] accounts[i]).points >= (#[trigger] accounts[j]).points
}

/// The test that picks the accounts with exactly `points` points.
pub open spec fn holds(points: int) -> spec_fn(Account) -> bool {
    |account: Account| account.points == points
}

/// The place at which an account with `points` points joins a ranking:
/// the first place whose account has fewer points, or the end.
pub open spec fn slot(ranking: Seq<Account>, points: int) -> int
    decreases ranking.len(),
{
    if ranking.len() == 0 || ranking[0].points < points {
        0
    } else {
        1 + slot(ranking.skip(1), points)
    }
}

/// The accounts in leaderboard order. Each account joins the ranking of
/// those registered before it, behind every account with at least as many
/// points.
pub open spec fn ranked(accounts: Seq<Account>) -> Seq<Account>
    decreases accounts.len(),
{
    if accounts.len() == 0 {
        accounts
    } else {
        let earlier = ranked(accounts.drop_last());
        earlier.insert(slot(earlier, accounts.last().points), accounts.last())
    }
}

/// A slot lies within the ranking or at its end, every account before it
/// has at least `points` points, and the account at it, if any, has fewer.
pub proof fn lemma_slot_bounds(ranking: Seq<Account>, points: int)
    ensures
        0 <= slot(ranking, points) <= ranking.len(),
        forall|j: int| 0 <= j < slot(ranking, points) ==> (#[trigger] ranking[j]).points >= points,
        slot(ranking, points) < ranking.len() ==> ranking[slot(ranking, points)].points < points,
    decreases ranking.len(),
{
    if ranking.len() == 0 || ranking[0].points < points {
    } else {
        let rest = ranking.skip(1);
        lemma_slot_bounds(rest, points);
        assert forall|j: int| 0 <= j < slot(ranking, points) implies (#[trigger] ranking[j]).points
            >= points by {
            if j > 0 {
                assert(ranking[j] == rest[j - 1]);
            }
        }
        if slot(ranking, points) < ranking.len() {
            assert(rest[slot(rest, points)] == ranking[slot(ranking, points)]);
        }
    }
}

/// The slot is the only place with those two properties.
pub proof fn lemma_slot_found(ranking: Seq<Account>, points: int, place: int)
    requires
        0 <= place <= ranking.len(),
        forall|j: int| 0 <= j < place ==> (#[trigger] ranking[j]).points >= points,
        place < ranking.len() ==> ranking[place].points < points,
    ensures
        slot(ranking, points) == place,
{
    lemma_slot_bounds(ranking, points);
    let found = slot(ranking, points);
    if found < place {
        assert(ranking[found].points >= points);
    } else if place < found {
        assert(ranking[place].points >= points);
    }
}

/// A ranking holds as many accounts as were registered.
pub proof fn lemma_ranked_len(accounts: Seq<Account>)
    ensures
        ranked(accounts).len() == accounts.len(),
    decreases accounts.len(),
{
    if accounts.len() > 0 {
        let earlier = ranked(accounts.drop_last());
        lemma_ranked_len(accounts.drop_last());
        lemma_slot_bounds(earlier, accounts.last().points);
    }
}

/// The leaderboard is sorted by points, highest first.
pub proof fn lemma_ranked_descending(accounts: Seq<Account>)
    ensures
        descending(ranked(accounts)),
    decreases accounts.len(),
{
    if accounts.len() > 0 {
        let earlier = ranked(accounts.drop_last());
        let joining = accounts.last();
        let place = slot(earlier, joining.points);
        let after = ranked(accounts);
        lemma_ranked_descending(accounts.drop_last());
        lemma_slot_bounds(earlier, joining.points);
        assert forall|i: int, j: int| 0 <= i < j < after.len() implies (#[trigger] after[i]).points >= (
        #[trigger] after[j]).points by {
            if j < place {
                assert(after[i] == earlier[i] && after[j] == earlier[j]);
            } else if j == place {
                assert(after[i] == earlier[i] && after[j] == joining);
            } else if i < place {
                assert(after[i] == earlier[i] && after[j] == earlier[j - 1]);
            } else if i == place {
                assert(after[i] == joining && after[j] == earlier[j - 1]);
                assert(earlier[place].points >= earlier[j - 1].points || place == j - 1);
            } else {
                assert(after[i] == earlier[i - 1] && after[j] == earlier[j - 1]);
            }
        }
    }
}

/// The leaderboard holds exactly the registered accounts: none is missing
/// and none appears more often than it was registered.
pub proof fn lemma_ranked_permutes(accounts: Seq<Account>)
    ensures
        ranked(accounts).to_multiset() == accounts.to_multiset(),
    decreases accounts.len(),
{
    if accounts.len() > 0 {
        let earlier = ranked(accounts.drop_last());
        let joining = accounts.last();
        lemma_ranked_permutes(accounts.drop_last());
        lemma_slot_bounds(earlier, joining.points);
        to_multiset_insert(earlier, slot(earlier, joining.points), joining);
        to_multiset_build(accounts.drop_last(), joining);
        assert(accounts.drop_last().push(joining) =~= accounts);
    }
}

/// Picking accounts by a test that none of them passes picks nothing.
proof fn lemma_filter_nothing(accounts: Seq<Account>, test: spec_fn(Account) -> bool)
    requires
        forall|i: int| 0 <= i < accounts.len() ==> !test(#[trigger] accounts[i]),
    ensures
        accounts.filter(test) == Seq::<Account>::empty(),
    decreases accounts.len(),
{
    reveal(Seq::filter);
    if accounts.len() > 0 {
        let rest = accounts.drop_last();
        assert forall|i: int| 0 <= i < rest.len() implies !test(#[trigger] rest[i]) by {
            assert(rest[i] == accounts[i]);
        }
        lemma_filter_nothing(rest, test);
        assert(!test(accounts[accounts.len() - 1]));
    }
}

/// Picking from a sequence with one more account at its end picks that
/// account last, if it passes the test, after what is picked from the rest.
proof fn lemma_filter_push(accounts: Seq<Account>, last: Account, test: spec_fn(Account) -> bool)
    ensures
        accounts.push(last).filter(test) == if test(last) {
            accounts.filter(test).push(last)
        } else {
            accounts.filter(test)
        },
{
    reveal(Seq::filter);
    assert(accounts.push(last).drop_last() =~= accounts);
}

/// Accounts with equal points stand on the leaderboard in the order in
/// which they were registered, so the same ledger always gives the same
/// leaderboard.
pub proof fn lemma_ranked_stable(accounts: Seq<Account>, points: int)
    ensures
        ranked(accounts).filter(holds(points)) == accounts.filter(holds(points)),
    decreases accounts.len(),
{
    if accounts.len() > 0 {
        let test = holds(points);
        let before = accounts.drop_last();
        let earlier = ranked(before);
        let joining = accounts.last();
        let place = slot(earlier, joining.points);
        lemma_ranked_stable(before, points);
        lemma_ranked_descending(before);
        lemma_slot_bounds(earlier, joining.points);
        let head = earlier.subrange(0, place);
        let tail = earlier.subrange(place, earlier.len() as int);
        assert(earlier =~= head + tail);
        Seq::filter_distributes_over_add(head, tail, test);
        Seq::filter_distributes_over_add(head.push(joining), tail, test);
        lemma_filter_push(head, joining, test);
        lemma_filter_push(before, joining, test);
        assert(before.push(joining) =~= accounts);
        if test(joining) {
            assert forall|i: int| 0 <= i < tail.len() implies !test(#[trigger] tail[i]) by {
                assert(tail[i] == earlier[place + i]);
                if i > 0 {
                    assert(earlier[place].points >= earlier[place + i].points);
                }
            }
            lemma_filter_nothing(tail, test);
            assert(head.filter(test) + Seq::<Account>::empty() =~= head.filter(test));
            assert(head.filter(test).push(joining) + Seq::<Account>::empty() =~= head.filter(
                test,
            ).push(joining));
        }
    }
}

/// Ranking the accounts registered so far together with the next one puts
/// the next one at its slot among the ranking of the others.
pub proof fn lemma_ranked_step(accounts: Seq<Account>, count: int)
    requires
        0 <= count < accounts.len(),
    ensures
        ranked(accounts.take(count + 1)) == ranked(accounts.take(count)).insert(
            slot(ranked(accounts.take(count)), accounts[count].points),
            accounts[count],
        ),
{
    assert(accounts.take(count + 1).drop_last() =~= accounts.take(count));
    assert(accounts.take(count + 1).last() == accounts[count]);
}

} // verus!
