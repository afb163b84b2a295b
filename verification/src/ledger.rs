//! The points ledger: one account per registered user, credited with the
//! points of correct answers.
//!
//! Every operation that changes the ledger takes it by exclusive reference,
//! so each registration, removal and credit is applied as a whole or not at
//! all, and no credit can be lost between reading a total and writing it
//! back.

use vstd::prelude::*;

use crate::accounts::{
    credited, enrolled, expelled, lemma_credit_keeps_accounts, lemma_credit_points,
    lemma_credits_add_up, lemma_position_unique, points_of, position, registered, unique_ids,
    Account,
};
use crate::error::QuizError;
use crate::standings::{
    lemma_ranked_descending, lemma_ranked_len, lemma_ranked_step, lemma_slot_found, ranked,
    standings, Standing,
};
use crate::text::same_text;

verus! {

/// What a user supplies to be registered.
#[derive(Clone, Default, Debug)]
pub struct User {
    pub user_id: String,
    pub user_name: String,
}

/// A stored account.
#[derive(Clone, Debug)]
pub struct UserU {
    pub user_id: String,
    pub user_name: String,
    pub points: i32,
}

/// A line of the leaderboard.
#[derive(Clone, Default, Debug)]
pub struct UserLeaderBoard {
    pub user_name: String,
    pub points: i32,
}

impl View for UserU {
    type V = Account;

    open spec fn view(&self) -> Account {
        Account { id: self.user_id@, name: self.user_name@, points: self.points as int }
    }
}

impl View for UserLeaderBoard {
    type V = Standing;

    open spec fn view(&self) -> Standing {
        Standing { name: self.user_name@, points: self.points as int }
    }
}

/// The accounts that a sequence of stored rows stands for.
pub open spec fn accounts_of(rows: Seq<UserU>) -> Seq<Account> {
    Seq::new(rows.len(), |i: int| rows[i]@)
}

/// The leaderboard that a sequence of lines stands for.
pub open spec fn board_of(lines: Seq<UserLeaderBoard>) -> Seq<Standing> {
    Seq::new(lines.len(), |i: int| lines[i]@)
}

/// Whether a credit of `delta` points to `id` is applied: it needs an
/// account to go to, and a new total that fits a signed 32-bit integer.
pub open spec fn credit_outcome(accounts: Seq<Account>, id: Seq<char>, delta: int) -> Result<
    (),
    QuizError,
> {
    if !registered(accounts, id) {
        Err(QuizError::NotFound)
    } else if i32::MIN <= points_of(accounts, id) + delta <= i32::MAX {
        Ok(())
    } else {
        Err(QuizError::PointsOutOfRange)
    }
}

/// The ledger after an attempt to credit `delta` points to `id`: the credit
/// is applied where the ledger accepts it and leaves no trace where it
/// does not.
pub open spec fn after_credit(accounts: Seq<Account>, id: Seq<char>, delta: int) -> Seq<Account> {
    if credit_outcome(accounts, id, delta).is_ok() {
        credited(accounts, id, delta)
    } else {
        accounts
    }
}

/// The ledger. It holds the accounts in the order in which they were
/// registered, and no two of them share an identifier.
pub struct UserDb {
    users: Vec<UserU>,
}

impl View for UserDb {
    type V = Seq<Account>;

    closed spec fn view(&self) -> Seq<Account> {
        accounts_of(self.users@)
    }
}

impl UserDb {
    #[verifier::type_invariant]
    spec fn identifiers_unique(self) -> bool {
        unique_ids(accounts_of(self.users@))
    }

    /// A ledger without accounts.
    pub fn new() -> (ledger: UserDb)
        ensures
            ledger@ == Seq::<Account>::empty(),
            unique_ids(ledger@),
    {
        let ledger = UserDb { users: Vec::new() };
        assert(ledger@ =~= Seq::<Account>::empty());
        ledger
    }

    /// The stored accounts, in the order in which they were registered.
    pub fn users(&self) -> (rows: &Vec<UserU>)
        ensures
            accounts_of(rows@) == self@,
            unique_ids(self@),
    {
        proof {
            use_type_invariant(self);
        }
        &self.users
    }

    /// The place of the account keyed by `user_id`, if there is one.
    fn find(&self, user_id: &str) -> (found: Option<usize>)
        ensures
            unique_ids(self@),
            match found {
                Some(place) => registered(self@, user_id@) && place == position(self@, user_id@)
                    && place < self.users@.len(),
                None => !registered(self@, user_id@),
            },
    {
        proof {
            use_type_invariant(self);
        }
        let mut i: usize = 0;
        while i < self.users.len()
            invariant
                i <= self.users@.len(),
                unique_ids(self@),
                forall|k: int| 0 <= k < i ==> (#[trigger] self@[k]).id != user_id@,
            decreases self.users@.len() - i,
        {
            if same_text(self.users[i].user_id.as_str(), user_id) {
                proof {
                    assert(self@[i as int].id == user_id@);
                    lemma_position_unique(self@, i as int);
                }
                return Some(i);
            }
            i += 1;
        }
        None
    }

    /// Registers a user with no points. An identifier that is already
    /// registered is refused and the ledger stays as it is.
    pub fn save_user(&mut self, user: User) -> (outcome: Result<(), QuizError>)
        ensures
            registered(old(self)@, user.user_id@) ==> outcome == Err::<(), QuizError>(
                QuizError::DuplicateUser,
            ) && final(self)@ == old(self)@,
            !registered(old(self)@, user.user_id@) ==> outcome == Ok::<(), QuizError>(())
                && final(self)@ == enrolled(old(self)@, user.user_id@, user.user_name@),
            unique_ids(final(self)@),
    {
        match self.find(user.user_id.as_str()) {
            Some(_) => Err(QuizError::DuplicateUser),
            None => {
                let row = UserU { user_id: user.user_id, user_name: user.user_name, points: 0 };
                proof {
                    let before = accounts_of(self.users@);
                    let after = accounts_of(self.users@.push(row));
                    assert(after =~= enrolled(before, row.user_id@, row.user_name@));
                    assert forall|i: int, j: int| 0 <= i < j < after.len() implies (
                    #[trigger] after[i]).id != (#[trigger] after[j]).id by {
                        assert(after[i] == before[i]);
                        if j < before.len() {
                            assert(after[j] == before[j]);
                        }
                    }
                }
                let mut rows: Vec<UserU> = Vec::new();
                core::mem::swap(&mut self.users, &mut rows);
                rows.push(row);
                core::mem::swap(&mut self.users, &mut rows);
                Ok(())
            },
        }
    }

    /// Removes the account keyed by `user_id`. Where there is none the
    /// removal is refused, so a second removal of the same user fails.
    pub fn delete_user(&mut self, user_id: &str) -> (outcome: Result<(), QuizError>)
        ensures
            registered(old(self)@, user_id@) ==> outcome == Ok::<(), QuizError>(()) && final(self)@
                == expelled(old(self)@, user_id@),
            !registered(old(self)@, user_id@) ==> outcome == Err::<(), QuizError>(
                QuizError::NotFound,
            ) && final(self)@ == old(self)@,
            unique_ids(final(self)@),
    {
        match self.find(user_id) {
            Some(place) => {
                proof {
                    let before = accounts_of(self.users@);
                    let after = accounts_of(self.users@.remove(place as int));
                    assert(after =~= before.remove(place as int));
                    assert forall|i: int, j: int| 0 <= i < j < after.len() implies (
                    #[trigger] after[i]).id != (#[trigger] after[j]).id by {
                        let from_i = if i < place { i } else { i + 1 };
                        let from_j = if j < place { j } else { j + 1 };
                        assert(after[i] == before[from_i] && after[j] == before[from_j]);
                    }
                }
                let mut rows: Vec<UserU> = Vec::new();
                core::mem::swap(&mut self.users, &mut rows);
                rows.remove(place);
                core::mem::swap(&mut self.users, &mut rows);
                Ok(())
            },
            None => Err(QuizError::NotFound),
        }
    }

    /// The points of the account keyed by `user_id`.
    pub fn get_poits(&self, user_id: &str) -> (points: Result<i32, QuizError>)
        ensures
            match points {
                Ok(total) => registered(self@, user_id@) && total == points_of(self@, user_id@),
                Err(error) => !registered(self@, user_id@) && error == QuizError::NotFound,
            },
    {
        match self.find(user_id) {
            Some(place) => Ok(self.users[place].points),
            None => Err(QuizError::NotFound),
        }
    }

    /// Adds `delta` points to the account keyed by `user_id`, in one step.
    /// Where there is no such account, or the new total would leave the
    /// range of the points column, the credit is refused and the ledger
    /// stays as it is.
    pub fn credit(&mut self, user_id: &str, delta: i64) -> (outcome: Result<(), QuizError>)
        ensures
            outcome == credit_outcome(old(self)@, user_id@, delta as int),
            final(self)@ == after_credit(old(self)@, user_id@, delta as int),
            unique_ids(final(self)@),
    {
        match self.find(user_id) {
            Some(place) => {
                let held: i64 = self.users[place].points as i64;
                let total: i64 = match held.checked_add(delta) {
                    Some(total) => total,
                    None => {
                        return Err(QuizError::PointsOutOfRange);
                    },
                };
                if total < i32::MIN as i64 || total > i32::MAX as i64 {
                    return Err(QuizError::PointsOutOfRange);
                }
                let mut rows: Vec<UserU> = Vec::new();
                core::mem::swap(&mut self.users, &mut rows);
                let row = rows.remove(place);
                rows.insert(
                    place,
                    UserU { user_id: row.user_id, user_name: row.user_name, points: total as i32 },
                );
                proof {
                    let before = accounts_of(old(self).users@);
                    let after = accounts_of(rows@);
                    assert(before[place as int].id == user_id@);
                    assert forall|i: int| 0 <= i < before.len() implies (#[trigger] before[i]).id
                        == user_id@ <==> i == place by {
                        if before[i].id == user_id@ {
                            lemma_position_unique(before, i);
                        }
                    }
                    assert(after =~= credited(before, user_id@, delta as int));
                    lemma_credit_keeps_accounts(before, user_id@, delta as int, user_id@);
                }
                core::mem::swap(&mut self.users, &mut rows);
                Ok(())
            },
            None => Err(QuizError::NotFound),
        }
    }

    /// Adds `points` to the account keyed by `user_id`, in one step, or
    /// refuses the credit as a whole.
    pub fn add_points_to_user(&mut self, user_id: &str, points: i32) -> (outcome: Result<
        (),
        QuizError,
    >)
        ensures
            outcome == credit_outcome(old(self)@, user_id@, points as int),
            final(self)@ == after_credit(old(self)@, user_id@, points as int),
            unique_ids(final(self)@),
    {
        self.credit(user_id, points as i64)
    }

    /// The leaderboard: every account's name and points, highest points
    /// first, and accounts with equal points in the order in which they
    /// were registered.
    pub fn leader_board(&self) -> (board: Vec<UserLeaderBoard>)
        ensures
            board_of(board@) == standings(ranked(self@)),
            board@.len() == self@.len(),
            forall|i: int, j: int|
                0 <= i < j < board@.len() ==> (#[trigger] board@[i]).points >= (
                #[trigger] board@[j]).points,
    {
        leaderboard_of(&self.users)
    }
}

/// The leaderboard of a sequence of stored accounts: every account's name
/// and points, highest points first, and accounts with equal points in the
/// order in which the sequence holds them.
pub fn leaderboard_of(rows: &Vec<UserU>) -> (board: Vec<UserLeaderBoard>)
    ensures
        board_of(board@) == standings(ranked(accounts_of(rows@))),
        board@.len() == rows@.len(),
        forall|i: int, j: int|
            0 <= i < j < board@.len() ==> (#[trigger] board@[i]).points >= (
            #[trigger] board@[j]).points,
{
    let ghost accounts = accounts_of(rows@);
    let mut board: Vec<UserLeaderBoard> = Vec::new();
    let mut i: usize = 0;
    proof {
        assert(accounts.take(0) =~= Seq::<Account>::empty());
        assert(board_of(board@) =~= standings(ranked(accounts.take(0))));
    }
    while i < rows.len()
        invariant
            accounts == accounts_of(rows@),
            i <= rows@.len(),
            board@.len() == i,
            board_of(board@) == standings(ranked(accounts.take(i as int))),
        decreases rows@.len() - i,
    {
        let points: i32 = rows[i].points;
        let ghost so_far = ranked(accounts.take(i as int));
        proof {
            lemma_ranked_len(accounts.take(i as int));
        }
        let mut place: usize = 0;
        while place < board.len() && board[place].points >= points
            invariant
                place <= board@.len(),
                so_far.len() == board@.len(),
                board_of(board@) == standings(so_far),
                forall|k: int| 0 <= k < place ==> (#[trigger] so_far[k]).points >= points,
            decreases board@.len() - place,
        {
            proof {
                assert(board_of(board@)[place as int] == standings(so_far)[place as int]);
            }
            place += 1;
        }
        proof {
            if place < board@.len() {
                assert(board_of(board@)[place as int] == standings(so_far)[place as int]);
            }
            lemma_slot_found(so_far, points as int, place as int);
            lemma_ranked_step(accounts, i as int);
        }
        let line = UserLeaderBoard { user_name: rows[i].user_name.clone(), points };
        let ghost lines_before = board@;
        board.insert(place, line);
        proof {
            let next = ranked(accounts.take(i + 1));
            assert(next == so_far.insert(place as int, accounts[i as int]));
            assert forall|k: int| 0 <= k < board@.len() implies board_of(board@)[k] == standings(
                next,
            )[k] by {
                if k < place {
                    assert(board_of(lines_before)[k] == standings(so_far)[k]);
                } else if k > place {
                    assert(board_of(lines_before)[k - 1] == standings(so_far)[k - 1]);
                }
            }
            assert(board_of(board@) =~= standings(next));
        }
        i += 1;
    }
    proof {
        assert(accounts.take(i as int) =~= accounts);
        lemma_ranked_descending(accounts);
        lemma_ranked_len(accounts);
        assert forall|a: int, b: int| 0 <= a < b < board@.len() implies (#[trigger] board@[a]).points
            >= (#[trigger] board@[b]).points by {
            assert(board_of(board@)[a] == standings(ranked(accounts))[a]);
            assert(board_of(board@)[b] == standings(ranked(accounts))[b]);
        }
    }
    board
}

/// Where two credits to one account are accepted one after the other, a
/// single credit of their sum is accepted too and leaves the same ledger.
pub proof fn lemma_credits_combine(accounts: Seq<Account>, id: Seq<char>, first: int, second: int)
    requires
        unique_ids(accounts),
        credit_outcome(accounts, id, first).is_ok(),
        credit_outcome(credited(accounts, id, first), id, second).is_ok(),
    ensures
        credit_outcome(accounts, id, first + second).is_ok(),
        credited(credited(accounts, id, first), id, second) == credited(accounts, id, first + second),
{
    lemma_credit_keeps_accounts(accounts, id, first, id);
    lemma_credit_points(accounts, id, first, id);
    lemma_credits_add_up(accounts, id, first, second);
}

} // verus!
