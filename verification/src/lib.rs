//! A data-access core for a social publishing application: composable
//! predicate filters, a claims/token service, and a deferred-authorization
//! mutation protocol over an in-memory store.

pub mod articles;
pub mod app;
pub mod auth;
pub mod comments;
pub mod config;
pub mod email;
pub mod errors;
pub mod filters;
pub mod laws;
pub mod models;
pub mod password;
pub mod queries;
pub mod requests;
pub mod server;
pub mod slug;
pub mod sql;
pub mod store;
pub mod tags;
pub mod text;

use vstd::prelude::*;

verus! {

} // verus!
