//! Decisions for a ledger that is kept in a durable store.
//!
//! The store carries out one statement per operation and reports what came
//! of it; the functions here turn that report into the outcome of the
//! operation. A credit is one statement that adds to the stored total in
//! place, so that the store itself keeps concurrent credits apart.

use vstd::prelude::*;

use crate::error::QuizError;

verus! {

/// What the store reports of a statement that registers, removes or
/// credits an account.
#[derive(Clone, Copy, Debug, PartialEq, Eq, Structural)]
pub enum WriteReport {
    /// The statement ran and changed this many accounts.
    Changed(u64),
    /// The statement would have stored a second account under one key.
    KeyTaken,
    /// The statement would have stored a total outside the points column.
    OutOfRange,
    /// The store could not be reached or failed otherwise.
    Unavailable,
}

/// What the store reports of a statement that reads one account's points.
#[derive(Clone, Copy, Debug, PartialEq, Eq, Structural)]
pub enum ReadReport {
    /// The account exists and holds this many points.
    Found(i32),
    /// No account is stored under the key.
    Missing,
    /// The store could not be reached or failed otherwise.
    Unavailable,
}

/// The outcome of a write to the store, as a value.
pub open spec fn write_result(report: WriteReport) -> Result<(), QuizError> {
    match report {
        WriteReport::Changed(accounts) => if accounts == 0 {
            Err(QuizError::NotFound)
        } else {
            Ok(())
        },
        WriteReport::KeyTaken => Err(QuizError::DuplicateUser),
        WriteReport::OutOfRange => Err(QuizError::PointsOutOfRange),
        WriteReport::Unavailable => Err(QuizError::StoreUnavailable),
    }
}

/// The outcome of a read from the store, as a value.
pub open spec fn read_result(report: ReadReport) -> Result<i32, QuizError> {
    match report {
        ReadReport::Found(points) => Ok(points),
        ReadReport::Missing => Err(QuizError::NotFound),
        ReadReport::Unavailable => Err(QuizError::StoreUnavailable),
    }
}

/// The outcome of a registration, removal or credit from what the store
/// reports of it. A statement that changed no account found none under the
/// key.
pub fn write_outcome(report: WriteReport) -> (outcome: Result<(), QuizError>)
    ensures
        outcome == write_result(report),
{
    match report {
        WriteReport::Changed(accounts) => if accounts == 0 {
            Err(QuizError::NotFound)
        } else {
            Ok(())
        },
        WriteReport::KeyTaken => Err(QuizError::DuplicateUser),
        WriteReport::OutOfRange => Err(QuizError::PointsOutOfRange),
        WriteReport::Unavailable => Err(QuizError::StoreUnavailable),
    }
}

/// The outcome of a points query from what the store reports of it.
pub fn read_outcome(report: ReadReport) -> (outcome: Result<i32, QuizError>)
    ensures
        outcome == read_result(report),
{
    match report {
        ReadReport::Found(points) => Ok(points),
        ReadReport::Missing => Err(QuizError::NotFound),
        ReadReport::Unavailable => Err(QuizError::StoreUnavailable),
    }
}

} // verus!
