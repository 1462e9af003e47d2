use record_store::db_error::DbError;
use record_store::db_error::DbErrorType;

#[test]
fn an_error_keeps_its_kind() {
    let kinds = [
        DbErrorType::TableNotFound,
        DbErrorType::Misc,
        DbErrorType::IoFailure,
        DbErrorType::MalformedHeader,
    ];
    for kind in kinds {
        assert_eq!(DbError::new(kind).error_type(), kind);
    }
    assert_ne!(DbError::new(DbErrorType::Misc), DbError::new(DbErrorType::TableNotFound));
}

#[test]
fn an_error_reads_as_its_kind_in_quotes() {
    assert_eq!(DbError::new(DbErrorType::TableNotFound).to_string(), "Error:\"TableNotFound\"");
    assert_eq!(DbError::new(DbErrorType::Misc).to_string(), "Error:\"Misc\"");
    assert_eq!(DbError::new(DbErrorType::IoFailure).to_string(), "Error:\"IoFailure\"");
    assert_eq!(DbError::new(DbErrorType::MalformedHeader).to_string(), "Error:\"MalformedHeader\"");
}

#[test]
fn the_text_of_an_error_holds_the_debug_name_of_its_kind() {
    let kinds = [
        DbErrorType::TableNotFound,
        DbErrorType::Misc,
        DbErrorType::IoFailure,
        DbErrorType::MalformedHeader,
    ];
    for kind in kinds {
        assert_eq!(DbError::new(kind).to_string(), format!("Error:\"{:?}\"", kind));
    }
}
