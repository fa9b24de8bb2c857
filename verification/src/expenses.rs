//! The decisions of the expense handlers. The database scopes every query
//! to the signed-in user; what is decided here is how its answers become
//! replies.
use vstd::prelude::*;

use crate::db::{db_outcome, DbError};
use crate::ids::{fresh_uuid, is_fresh_draw, is_random_uuid};
use crate::replies::{dashboard_reply, is_redirect, PageReply};
use crate::session::is_error;
use crate::status::{ApiError, Status};

verus! {

/// The answer to a lookup of one of the user's expenses: the expense, 404
/// `Not found` when the user has no expense with that id, or 500 `DB error`.
pub open spec fn lookup_spec<T>(fetched: Result<Option<T>, DbError>, r: Result<T, ApiError>) -> bool {
    match fetched {
        Ok(Some(v)) => r == Ok::<T, ApiError>(v),
        Ok(None) => r matches Err(e) && is_error(e, Status::NotFound, "Not found"@),
        Err(_) => r matches Err(e) && is_error(e, Status::InternalServerError, "DB error"@),
    }
}

/// How a delete is refused: 500 `DB error` when the delete failed, 404 `Not
/// found` when it removed no row, and not at all otherwise.
pub open spec fn deletion_refusal(deleted: Result<u64, DbError>, e: ApiError) -> bool {
    match deleted {
        Err(_) => is_error(e, Status::InternalServerError, "DB error"@),
        Ok(rows) => rows == 0 && is_error(e, Status::NotFound, "Not found"@),
    }
}

/// Whether a delete went through: it succeeded and removed a row.
pub open spec fn deletion_done(deleted: Result<u64, DbError>) -> bool {
    deleted matches Ok(rows) && rows > 0
}

/// The answer to fetching or updating one of the user's expenses.
pub fn lookup_outcome<T>(fetched: Result<Option<T>, DbError>) -> (r: Result<T, ApiError>)
    ensures
        lookup_spec(fetched, r),
{
    match db_outcome(fetched) {
        Ok(Some(v)) => Ok(v),
        Ok(None) => Err(ApiError::new(Status::NotFound, "Not found")),
        Err(e) => Err(e),
    }
}

/// The JSON answer to a delete, given the number of rows it removed.
pub fn deletion_outcome(deleted: Result<u64, DbError>) -> (r: Result<String, ApiError>)
    ensures
        if deletion_done(deleted) {
            r matches Ok(s) && s@ == "Deleted"@
        } else {
            r matches Err(e) && deletion_refusal(deleted, e)
        },
{
    match db_outcome(deleted) {
        Ok(rows) => {
            if rows == 0 {
                Err(ApiError::new(Status::NotFound, "Not found"))
            } else {
                Ok("Deleted".to_owned())
            }
        },
        Err(e) => Err(e),
    }
}

/// The reply to the delete form, given the number of rows the delete
/// removed: back to the dashboard when it went through.
pub fn deletion_form_outcome(deleted: Result<u64, DbError>) -> (r: Result<PageReply, ApiError>)
    ensures
        if deletion_done(deleted) {
            r matches Ok(p) && is_redirect(p, None, "/dashboard"@)
        } else {
            r matches Err(e) && deletion_refusal(deleted, e)
        },
{
    match deletion_outcome(deleted) {
        Ok(_) => Ok(dashboard_reply()),
        Err(e) => Err(e),
    }
}

/// The fields of a new expense row but for its amount, which the caller
/// binds itself.
#[derive(Clone, Debug, PartialEq, Eq)]
pub struct NewExpense {
    pub id: u128,
    pub user_id: u128,
    pub title: String,
    pub category: Option<String>,
}

/// A new expense of the signed-in user under a fresh random UUID.
pub fn new_expense(user_id: u128, title: String, category: Option<String>) -> (x: NewExpense)
    ensures
        is_random_uuid(x.id),
        is_fresh_draw(x.id),
        x.user_id == user_id,
        x.title == title,
        x.category == category,
{
    NewExpense { id: fresh_uuid(), user_id, title, category }
}

/// The category shown on the dashboard: the expense's own, or
/// `Uncategorized`.
pub fn category_label(category: Option<String>) -> (label: String)
    ensures
        match category {
            Some(c) => label == c,
            None => label@ == "Uncategorized"@,
        },
{
    match category {
        Some(c) => c,
        None => "Uncategorized".to_owned(),
    }
}


/// The answers to a lookup, in words: the row when there is one, 404 `Not
/// found` when there is none, 500 `DB error` when the call failed.
pub proof fn lemma_lookup_answers<T>(fetched: Result<Option<T>, DbError>, r: Result<T, ApiError>)
    requires
        lookup_spec(fetched, r),
    ensures
        fetched matches Ok(Some(v)) ==> r == Ok::<T, ApiError>(v),
        fetched == Ok::<Option<T>, DbError>(None) ==> (r matches Err(e) && e.status.spec_code()
            == 404 && e.message@ == "Not found"@),
        fetched is Err ==> (r matches Err(e) && e.status.spec_code() == 500 && e.message@
            == "DB error"@),
{
}

/// The answers to a delete, in words: it goes through exactly when it
/// removed at least one row; removing none is refused with 404 `Not found`
/// and a failed delete with 500 `DB error`.
pub proof fn lemma_delete_answers(rows: u64, failure: DbError, e: ApiError)
    ensures
        deletion_done(Ok::<u64, DbError>(rows)) <==> rows > 0,
        !deletion_done(Err::<u64, DbError>(failure)),
        deletion_refusal(Ok::<u64, DbError>(0), e) <==> (e.status.spec_code() == 404 && e.message@
            == "Not found"@),
        deletion_refusal(Err::<u64, DbError>(failure), e) <==> (e.status.spec_code() == 500
            && e.message@ == "DB error"@),
{
}

} // verus!
