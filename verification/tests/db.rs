use knapsack_jobs::db::{map_db_result, to_http_status, DbError};

#[test]
fn a_text_that_cannot_be_stored_is_a_client_error() {
    assert_eq!(to_http_status(DbError::InvalidCString).code, 400);
}

#[test]
fn a_missing_row_is_not_found() {
    assert_eq!(to_http_status(DbError::NotFound).code, 404);
}

#[test]
fn every_other_failure_is_a_server_error() {
    for e in [
        DbError::DatabaseError,
        DbError::Stale,
        DbError::QueryBuilderError,
        DbError::DeserializationError,
        DbError::SerializationError,
        DbError::RollbackErrorOnCommit,
        DbError::RollbackTransaction,
        DbError::AlreadyInTransaction,
        DbError::NotInTransaction,
        DbError::BrokenTransactionManager,
        DbError::Poisoned,
    ] {
        assert_eq!(to_http_status(e).code, 500);
    }
}

#[test]
fn map_db_result_keeps_the_value() {
    assert_eq!(map_db_result(Ok::<u8, DbError>(3)).unwrap(), 3);
}

#[test]
fn map_db_result_maps_the_failure() {
    assert_eq!(map_db_result(Err::<u8, DbError>(DbError::NotFound)).unwrap_err().code, 404);
    assert_eq!(map_db_result(Err::<u8, DbError>(DbError::DatabaseError)).unwrap_err().code, 500);
}

#[test]
fn db_error_messages() {
    assert_eq!(DbError::NotFound.message(), "no row matched");
    assert_eq!(
        DbError::Stale.message(),
        "the row is not in the state that the update starts from"
    );
    assert_eq!(DbError::DatabaseError.message(), "the store refused the statement");
}

#[test]
fn which_failures_may_pass() {
    for e in [
        DbError::DatabaseError,
        DbError::RollbackErrorOnCommit,
        DbError::RollbackTransaction,
        DbError::BrokenTransactionManager,
    ] {
        assert!(e.is_transient());
    }
    for e in [
        DbError::InvalidCString,
        DbError::NotFound,
        DbError::Stale,
        DbError::QueryBuilderError,
        DbError::DeserializationError,
        DbError::SerializationError,
        DbError::AlreadyInTransaction,
        DbError::NotInTransaction,
        DbError::Poisoned,
    ] {
        assert!(!e.is_transient());
    }
}
