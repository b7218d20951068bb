//! The failures of a store operation, and the status code that each is
//! answered with.

use vstd::prelude::*;
use crate::http::{ApiResult, HttpStatus};

verus! {

/// Why an operation on the store failed.
#[derive(Clone, Copy, Debug, PartialEq, Eq, Structural)]
pub enum DbError {
    /// A text for the store held a zero byte.
    InvalidCString,
    /// The store refused the statement: a key that exists already, a row
    /// that is referred to and missing, a broken connection.
    DatabaseError,
    /// No row matched.
    NotFound,
    /// The row is not in the state that the update starts from: the update
    /// was made before, and nothing was written now.
    Stale,
    /// The statement could not be built.
    QueryBuilderError,
    /// A row could not be read into its type.
    DeserializationError,
    /// A value could not be written for the store.
    SerializationError,
    /// A transaction failed to commit, and then to roll back.
    RollbackErrorOnCommit,
    /// A transaction was rolled back on request.
    RollbackTransaction,
    /// A transaction was begun inside another one.
    AlreadyInTransaction,
    /// A transaction was required, and none was open.
    NotInTransaction,
    /// The transaction manager was left in a broken state.
    BrokenTransactionManager,
    /// The connection's lock was poisoned by a panic of its holder.
    Poisoned,
}

impl DbError {
    /// Whether the failure may pass: the same operation may succeed when it
    /// is tried again. A refused statement and a failed transaction may; a
    /// missing row, a stale update, or a value that cannot be written or read
    /// may not.
    pub open spec fn transient(self) -> bool {
        match self {
            DbError::DatabaseError => true,
            DbError::RollbackErrorOnCommit => true,
            DbError::RollbackTransaction => true,
            DbError::BrokenTransactionManager => true,
            _ => false,
        }
    }

    /// Whether the operation is worth another try.
    pub fn is_transient(&self) -> (yes: bool)
        ensures
            yes == self.transient(),
    {
        match self {
            DbError::DatabaseError => true,
            DbError::RollbackErrorOnCommit => true,
            DbError::RollbackTransaction => true,
            DbError::BrokenTransactionManager => true,
            _ => false,
        }
    }
}

/// The status code for a failure of the store: a client error for a text that
/// cannot be stored, not found for a missing row, and a server error for
/// everything else.
pub open spec fn status_of(e: DbError) -> HttpStatus {
    match e {
        DbError::InvalidCString => HttpStatus { code: 400 },
        DbError::NotFound => HttpStatus { code: 404 },
        _ => HttpStatus { code: 500 },
    }
}

/// The status code that a failure of the store is answered with.
pub fn to_http_status(e: DbError) -> (status: HttpStatus)
    ensures
        status == status_of(e),
{
    HttpStatus::new(
        match e {
            DbError::InvalidCString => 400,
            DbError::DatabaseError => 500,
            DbError::NotFound => 404,
            DbError::Stale => 500,
            DbError::QueryBuilderError => 500,
            DbError::DeserializationError => 500,
            DbError::SerializationError => 500,
            DbError::RollbackErrorOnCommit => 500,
            DbError::RollbackTransaction => 500,
            DbError::AlreadyInTransaction => 500,
            DbError::NotInTransaction => 500,
            DbError::BrokenTransactionManager => 500,
            DbError::Poisoned => 500,
        },
    )
}

/// The result of a store operation as the result of a request: the value, or
/// the status code for the failure.
pub fn map_db_result<T>(res: Result<T, DbError>) -> (out: ApiResult<T>)
    ensures
        res matches Ok(t) ==> out == Ok::<T, HttpStatus>(t),
        res matches Err(e) ==> out == Err::<T, HttpStatus>(status_of(e)),
{
    match res {
        Ok(task) => Ok(task),
        Err(e) => Err(to_http_status(e)),
    }
}

impl DbError {
    /// The failure in words.
    pub open spec fn text(self) -> Seq<char> {
        match self {
            DbError::InvalidCString => "a text for the store holds a zero byte"@,
            DbError::DatabaseError => "the store refused the statement"@,
            DbError::NotFound => "no row matched"@,
            DbError::Stale => "the row is not in the state that the update starts from"@,
            DbError::QueryBuilderError => "the statement could not be built"@,
            DbError::DeserializationError => "a row could not be read"@,
            DbError::SerializationError => "a value could not be written"@,
            DbError::RollbackErrorOnCommit => "the transaction failed to commit and to roll back"@,
            DbError::RollbackTransaction => "the transaction was rolled back"@,
            DbError::AlreadyInTransaction => "a transaction is open already"@,
            DbError::NotInTransaction => "no transaction is open"@,
            DbError::BrokenTransactionManager => "the transaction manager is broken"@,
            DbError::Poisoned => "the lock of the connection is poisoned"@,
        }
    }

    /// The failure in words.
    pub fn message(&self) -> (message: String)
        ensures
            message@ == self.text(),
    {
        match self {
            DbError::InvalidCString => "a text for the store holds a zero byte".to_owned(),
            DbError::DatabaseError => "the store refused the statement".to_owned(),
            DbError::NotFound => "no row matched".to_owned(),
            DbError::Stale => "the row is not in the state that the update starts from".to_owned(),
            DbError::QueryBuilderError => "the statement could not be built".to_owned(),
            DbError::DeserializationError => "a row could not be read".to_owned(),
            DbError::SerializationError => "a value could not be written".to_owned(),
            DbError::RollbackErrorOnCommit => "the transaction failed to commit and to roll back".to_owned(),
            DbError::RollbackTransaction => "the transaction was rolled back".to_owned(),
            DbError::AlreadyInTransaction => "a transaction is open already".to_owned(),
            DbError::NotInTransaction => "no transaction is open".to_owned(),
            DbError::BrokenTransactionManager => "the transaction manager is broken".to_owned(),
            DbError::Poisoned => "the lock of the connection is poisoned".to_owned(),
        }
    }
}

} // verus!
