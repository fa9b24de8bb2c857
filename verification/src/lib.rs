//! Verified core of an expense-tracking web service: the decisions that the
//! HTTP handlers and the authentication middleware make, separated from the
//! database, template and network work that surrounds them.
//!
//! - `headers`: reading the session token out of request headers;
//! - `session`: the authentication middleware's decisions;
//! - `accounts`: signing up, and signing in as a state machine;
//! - `replies`: the replies to the HTML forms and the session cookie;
//! - `expenses`: the answers of the expense handlers;
//! - `db`: how failed database calls are answered;
//! - `ids`: record identifiers and their text form;
//! - `models`, `status`: request and response bodies, HTTP statuses.

pub mod accounts;
pub mod db;
pub mod expenses;
pub mod headers;
pub mod ids;
pub mod models;
pub mod replies;
pub mod session;
pub mod status;
