//! What the mount and token stores make of the database's answers to the statements that
//! write rows: which error the caller sees, and when the compiled policy of a mount is
//! forgotten so that the next request compiles the stored one.
use vstd::prelude::*;

use crate::errors::DbError;
use crate::mount::MountName;
use crate::policy::PolicyCache;

verus! {

/// What the database answered to a statement that writes or deletes rows: the number of
/// rows it touched, a violated uniqueness constraint, or another failure (each failure
/// with the database's message).
#[derive(Debug)]
pub enum StatementOutcome {
    Done { rows_affected: u64 },
    UniqueViolation(String),
    Failed(String),
}

/// The message of a failed statement.
pub open spec fn failure_message(o: StatementOutcome) -> Seq<char> {
    match o {
        StatementOutcome::Done { .. } => Seq::empty(),
        StatementOutcome::UniqueViolation(m) => m@,
        StatementOutcome::Failed(m) => m@,
    }
}

/// The query error carrying the message of a failed statement.
fn query_error(o: StatementOutcome) -> (e: DbError)
    requires
        !(o is Done),
    ensures
        e matches DbError::Query(m) && m@ == failure_message(o),
{
    match o {
        StatementOutcome::Done { .. } => DbError::Query(String::new()),
        StatementOutcome::UniqueViolation(m) => DbError::Query(m),
        StatementOutcome::Failed(m) => DbError::Query(m),
    }
}

/// The end of inserting a new mount `name`: a name already taken is a conflict, another
/// failure a query error; once the row is written the mount's compiled policy is
/// forgotten.
pub fn finish_mount_create(cache: &mut PolicyCache, name: &MountName, outcome: StatementOutcome) -> (r:
    Result<(), DbError>)
    ensures
        match outcome {
            StatementOutcome::Done { .. } => r is Ok && final(cache)@ == old(cache)@.remove(name@),
            StatementOutcome::UniqueViolation(_) => r == Err::<(), DbError>(DbError::Conflict)
                && final(cache)@ == old(cache)@,
            StatementOutcome::Failed(m) => r matches Err(DbError::Query(q)) && q@ == m@
                && final(cache)@ == old(cache)@,
        },
{
    match outcome {
        StatementOutcome::Done { .. } => {
            cache.invalidate_mount(name);
            Ok(())
        },
        StatementOutcome::UniqueViolation(_) => Err(DbError::Conflict),
        StatementOutcome::Failed(m) => Err(DbError::Query(m)),
    }
}

/// The end of a statement that changes or deletes the row of mount `name`: any failure is
/// a query error; touching no row means there is no such mount; otherwise the mount's
/// compiled policy is forgotten.
pub fn finish_mount_change(cache: &mut PolicyCache, name: &MountName, outcome: StatementOutcome) -> (r:
    Result<(), DbError>)
    ensures
        match outcome {
            StatementOutcome::Done { rows_affected } => if rows_affected == 0 {
                r == Err::<(), DbError>(DbError::NotFound) && final(cache)@ == old(cache)@
            } else {
                r is Ok && final(cache)@ == old(cache)@.remove(name@)
            },
            _ => r matches Err(DbError::Query(q)) && q@ == failure_message(outcome)
                && final(cache)@ == old(cache)@,
        },
{
    match outcome {
        StatementOutcome::Done { rows_affected } => {
            if rows_affected == 0 {
                return Err(DbError::NotFound);
            }
            cache.invalidate_mount(name);
            Ok(())
        },
        _ => Err(query_error(outcome)),
    }
}

/// The end of storing mount `name`, inserted or replaced: any failure is a query error;
/// otherwise the mount's compiled policy is forgotten.
pub fn finish_mount_save(cache: &mut PolicyCache, name: &MountName, outcome: StatementOutcome) -> (r:
    Result<(), DbError>)
    ensures
        match outcome {
            StatementOutcome::Done { .. } => r is Ok && final(cache)@ == old(cache)@.remove(name@),
            _ => r matches Err(DbError::Query(q)) && q@ == failure_message(outcome)
                && final(cache)@ == old(cache)@,
        },
{
    match outcome {
        StatementOutcome::Done { .. } => {
            cache.invalidate_mount(name);
            Ok(())
        },
        _ => Err(query_error(outcome)),
    }
}

/// The end of a statement that writes a token row: any failure is a query error.
pub fn finish_token_write(outcome: StatementOutcome) -> (r: Result<(), DbError>)
    ensures
        match outcome {
            StatementOutcome::Done { .. } => r is Ok,
            _ => r matches Err(DbError::Query(q)) && q@ == failure_message(outcome),
        },
{
    match outcome {
        StatementOutcome::Done { .. } => Ok(()),
        _ => Err(query_error(outcome)),
    }
}

/// The end of deleting a token row: any failure is a query error, and touching no row
/// means there is no such token.
pub fn finish_token_delete(outcome: StatementOutcome) -> (r: Result<(), DbError>)
    ensures
        match outcome {
            StatementOutcome::Done { rows_affected } => if rows_affected == 0 {
                r == Err::<(), DbError>(DbError::NotFound)
            } else {
                r is Ok
            },
            _ => r matches Err(DbError::Query(q)) && q@ == failure_message(outcome),
        },
{
    match outcome {
        StatementOutcome::Done { rows_affected } => if rows_affected == 0 {
            Err(DbError::NotFound)
        } else {
            Ok(())
        },
        _ => Err(query_error(outcome)),
    }
}

} // verus!
