use expense_tracker::db::{db_error_response, db_outcome, DbError};
use expense_tracker::expenses::{
    category_label, deletion_form_outcome, deletion_outcome, lookup_outcome, new_expense,
};
use expense_tracker::models::ErrorResponse;
use expense_tracker::status::Status;

fn failure() -> DbError {
    DbError { code: None }
}

#[test]
fn lookup_found() {
    assert_eq!(lookup_outcome::<u32>(Ok(Some(7))).unwrap(), 7);
}

#[test]
fn lookup_missing_is_not_found() {
    let e = lookup_outcome::<u32>(Ok(None)).unwrap_err();
    assert_eq!(e.status, Status::NotFound);
    assert_eq!(e.status.code(), 404);
    assert_eq!(e.message, "Not found");
}

#[test]
fn lookup_failure_is_db_error() {
    let e = lookup_outcome::<u32>(Err(failure())).unwrap_err();
    assert_eq!(e.status, Status::InternalServerError);
    assert_eq!(e.message, "DB error");
}

#[test]
fn delete_outcomes() {
    assert_eq!(deletion_outcome(Ok(1)).unwrap(), "Deleted");
    assert_eq!(deletion_outcome(Ok(3)).unwrap(), "Deleted");
    let e = deletion_outcome(Ok(0)).unwrap_err();
    assert_eq!((e.status, e.message.as_str()), (Status::NotFound, "Not found"));
    let e = deletion_outcome(Err(failure())).unwrap_err();
    assert_eq!((e.status, e.message.as_str()), (Status::InternalServerError, "DB error"));
}

#[test]
fn delete_form_outcomes() {
    let r = deletion_form_outcome(Ok(1)).unwrap();
    assert_eq!(r.redirect, "/dashboard");
    assert_eq!(r.status, Status::Success);
    let e = deletion_form_outcome(Ok(0)).unwrap_err();
    assert_eq!((e.status, e.message.as_str()), (Status::NotFound, "Not found"));
    let e = deletion_form_outcome(Err(failure())).unwrap_err();
    assert_eq!((e.status, e.message.as_str()), (Status::InternalServerError, "DB error"));
}

#[test]
fn db_outcome_passes_values_and_maps_failures() {
    assert_eq!(db_outcome::<&str>(Ok("rows")).unwrap(), "rows");
    let e = db_outcome::<u8>(Err(failure())).unwrap_err();
    assert_eq!((e.status, e.message.as_str()), (Status::InternalServerError, "DB error"));
}

#[test]
fn new_expense_row() {
    let x = new_expense(42, "Lunch".to_string(), Some("Food".to_string()));
    assert_eq!(x.user_id, 42);
    assert_eq!(x.title, "Lunch");
    assert_eq!(x.category.as_deref(), Some("Food"));
    assert_eq!(uuid::Uuid::from_u128(x.id).get_version_num(), 4);
    let y = new_expense(42, "Lunch".to_string(), None);
    assert_ne!(x.id, y.id);
    assert_eq!(y.category, None);
}

#[test]
fn category_labels() {
    assert_eq!(category_label(Some("Travel".to_string())), "Travel");
    assert_eq!(category_label(None), "Uncategorized");
}

#[test]
fn unique_violation_is_conflict() {
    let (status, body) = db_error_response(&DbError { code: Some("23505".to_string()) });
    assert_eq!(status, Status::Conflict);
    assert_eq!(status.code(), 409);
    assert_eq!(body, ErrorResponse { success: false, error: "Email already exists".to_string(), details: None });
}

#[test]
fn other_db_failures_are_internal() {
    for code in [None, Some("23503".to_string()), Some("2350".to_string())] {
        let (status, body) = db_error_response(&DbError { code });
        assert_eq!(status, Status::InternalServerError);
        assert_eq!(body, ErrorResponse::new("Database error"));
        assert!(!body.success);
        assert_eq!(body.details, None);
    }
}
