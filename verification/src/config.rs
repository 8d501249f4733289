//! Configuration of the backend: where the backing store lives and the
//! process-wide signing secret, established once at startup and read-only
//! thereafter. The embedding application fills it from its environment.

use vstd::prelude::*;

verus! {

/// The backend configuration.
#[derive(Debug, Clone)]
pub struct Config {
    pub database_url_prefix: String,
    pub database_url_path: String,
    pub database_file: String,
    pub secret: String,
    pub drop_database: bool,
}

} // verus!
