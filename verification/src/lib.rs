//! Authentication and ownership-enforcement core of a multi-tenant task
//! tracker.
//!
//! The crate issues and validates signed bearer tokens, binds each token to a
//! revocable per-account session marker, and scopes every task and list
//! operation to the authenticated owner.  Password hashing and the token
//! signature come from outside crates through small trusted wrappers; the
//! token format, the session rules and the ownership filters are verified.

pub mod errors;
pub mod hex;
pub mod login_history;
pub mod password;
pub mod response;
pub mod session;
pub mod text;
pub mod todo_list;
pub mod todo_list_service;
pub mod todo_task;
pub mod todo_task_service;
pub mod token_utils;
pub mod user;
pub mod user_service;
pub mod verify_auth;
