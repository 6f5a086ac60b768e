//! Service configuration. The values come from the process environment, but
//! the ambient read happens at the program's edge: this module receives the
//! raw values and decides whether they form a usable configuration.

use vstd::prelude::*;

verus! {

use crate::error::AppError;

/// The configuration the service runs with.
#[derive(Debug, Clone)]
pub struct AppConfig {
    pub host: String,
    pub port: u16,
    pub database_url: String,
    pub jwt_secret: String,
}

impl AppConfig {
    /// Assembles the configuration from the raw environment values
    /// `app_host`, `app_port`, `database_url` and `jwt_secret` (`None` for a
    /// variable that is not set). Succeeds exactly when all four are present
    /// and the port is a valid TCP port number.
    pub fn from_env(
        host: Option<String>,
        port: Option<i64>,
        database_url: Option<String>,
        jwt_secret: Option<String>,
    ) -> (r: Result<AppConfig, AppError>)
        ensures
            (host is Some && port is Some && 0 <= port->0 <= 65535 && database_url is Some
                && jwt_secret is Some) <==> r is Ok,
            r matches Ok(cfg) ==> {
                &&& cfg.host == host->0
                &&& cfg.port as int == port->0 as int
                &&& cfg.database_url == database_url->0
                &&& cfg.jwt_secret == jwt_secret->0
            },
            r matches Err(e) ==> e is Internal,
    {
        let host = match host {
            Some(h) => h,
            None => {
                return Err(AppError::Internal(String::from_str("app_host is not set")));
            },
        };
        let port = match port {
            Some(p) => p,
            None => {
                return Err(AppError::Internal(String::from_str("app_port is not set")));
            },
        };
        if port < 0 || port > 65535 {
            return Err(AppError::Internal(String::from_str("app_port is out of range")));
        }
        let database_url = match database_url {
            Some(d) => d,
            None => {
                return Err(AppError::Internal(String::from_str("database_url is not set")));
            },
        };
        let jwt_secret = match jwt_secret {
            Some(s) => s,
            None => {
                return Err(AppError::Internal(String::from_str("jwt_secret is not set")));
            },
        };
        Ok(AppConfig { host, port: port as u16, database_url, jwt_secret })
    }
}

} // verus!
