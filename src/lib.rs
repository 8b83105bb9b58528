//! Credential handling for a user directory service: password hashing and
//! verification, HTTP Basic credential extraction, and the decisions of the
//! authentication flow.

pub mod auth_flow;
pub mod basic_auth;
pub mod password;
pub mod search;
pub mod users;
