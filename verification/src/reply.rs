//! The body of the reply to a points query: the user's total as JSON text.

use vstd::prelude::*;

use crate::accounts::{points_of, registered};
use crate::error::QuizError;
use crate::ledger::UserDb;

verus! {

/// The error type of the JSON encoder. Nothing is known of what a value
/// of it holds.
#[verifier::external_type_specification]
#[verifier::external_body]
pub struct ExJsonError(serde_json::Error);

/// The character of a decimal digit.
pub open spec fn digit(value: int) -> char {
    seq!['0', '1', '2', '3', '4', '5', '6', '7', '8', '9'][value]
}

/// The decimal digits of a natural number, without leading zeros.
pub open spec fn digits(value: nat) -> Seq<char>
    decreases value,
{
    if value < 10 {
        seq![digit(value as int)]
    } else {
        digits(value / 10).push(digit((value % 10) as int))
    }
}

/// An integer as a JSON number: its decimal digits, after a minus sign
/// where it is negative.
pub open spec fn decimal(value: int) -> Seq<char> {
    if value < 0 {
        seq!['-'] + digits((-value) as nat)
    } else {
        digits(value as nat)
    }
}

/// Encodes a point total as JSON.
///
/// Trusted: this is `serde_json::to_string` on an `i32`. The encoder hands
/// the integer to its formatter, which writes it into a byte vector as
/// decimal digits, with a leading minus sign for a negative value. An
/// integer gives the encoder nothing to refuse and a byte vector takes
/// every write, so the call returns the text that was written.
#[verifier::external_body]
fn encode_points(points: i32) -> (encoded: Result<String, serde_json::Error>)
    ensures
        encoded is Ok,
        encoded matches Ok(text) ==> text@ == decimal(points as int),
{
    serde_json::to_string(&points)
}

/// The reply for an encoded total: the text where the encoder produced
/// one, and an encoding failure where it reported an error.
pub fn points_reply(encoded: Result<String, serde_json::Error>) -> (reply: Result<String, QuizError>)
    ensures
        match encoded {
            Ok(text) => reply == Ok::<String, QuizError>(text),
            Err(_) => reply == Err::<String, QuizError>(QuizError::Encoding),
        },
{
    match encoded {
        Ok(text) => Ok(text),
        Err(_) => Err(QuizError::Encoding),
    }
}

/// The reply that carries a point total: the total as a JSON number.
pub fn points_body(points: i32) -> (reply: Result<String, QuizError>)
    ensures
        reply matches Ok(text) && text@ == decimal(points as int),
{
    points_reply(encode_points(points))
}

/// Answers a query for the points of `user_id`: the total of the account
/// as a JSON number. A user that is not registered is reported as not
/// found.
pub fn get_points_request(ledger: &UserDb, user_id: &str) -> (reply: Result<String, QuizError>)
    ensures
        match reply {
            Ok(text) => registered(ledger@, user_id@) && text@ == decimal(
                points_of(ledger@, user_id@),
            ),
            Err(error) => !registered(ledger@, user_id@) && error == QuizError::NotFound,
        },
{
    match ledger.get_poits(user_id) {
        Ok(points) => points_body(points),
        Err(error) => Err(error),
    }
}

} // verus!
