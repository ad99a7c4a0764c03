//! Process configuration: the environment, the listening port, the internal
//! scheme's secret and the trusted key-discovery endpoints. Reading these
//! from the process environment is I/O and happens outside the library.

use vstd::prelude::*;

verus! {

/// The deployment environment.
#[derive(Debug, PartialEq, Eq, Structural, Clone, Copy)]
pub enum AppEnv {
    Development,
    Production,
}

impl Default for AppEnv {
    /// Development, the safe default for a locally started process.
    fn default() -> (r: Self)
        ensures
            r == AppEnv::Development,
    {
        AppEnv::Development
    }
}

/// The service's configuration, immutable once loaded.
#[derive(Debug)]
pub struct AppConfig {
    pub env: AppEnv,
    pub port: u16,
    pub ship_key: String,
    pub jwks_issuers: Vec<(String, String)>,
}

impl Default for AppConfig {
    /// Development environment, port zero, no secret, no issuers.
    fn default() -> (r: Self)
        ensures
            r.env == AppEnv::Development,
            r.port == 0,
            r.ship_key@.len() == 0,
            r.jwks_issuers@.len() == 0,
    {
        AppConfig { env: AppEnv::Development, port: 0, ship_key: String::new(), jwks_issuers: Vec::new() }
    }
}

} // verus!
