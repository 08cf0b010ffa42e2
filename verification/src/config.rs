//! Startup configuration: host, port and token, merged from the
//! configuration file and the environment, the environment winning, with
//! fixed defaults and a freshly generated token as the last resort.

use vstd::prelude::*;

verus! {

/// What the server starts with.
pub struct Config {
    pub host: String,
    pub port: u16,
    pub token: String,
}

impl Config {
    /// Merges the configuration sources: for each field the environment
    /// value wins over the file value, and the defaults (`0.0.0.0`, 9876,
    /// the generated token) stand where neither is given.
    pub fn resolve(
        env_host: Option<String>,
        env_port: Option<u16>,
        env_token: Option<String>,
        file_host: Option<String>,
        file_port: Option<u16>,
        file_token: Option<String>,
        generated_token: String,
    ) -> (r: Config)
        ensures
            r.host@ == match (env_host, file_host) {
                (Some(h), _) => h@,
                (None, Some(h)) => h@,
                (None, None) => "0.0.0.0"@,
            },
            r.port == match (env_port, file_port) {
                (Some(p), _) => p,
                (None, Some(p)) => p,
                (None, None) => 9876u16,
            },
            r.token@ == match (env_token, file_token) {
                (Some(t), _) => t@,
                (None, Some(t)) => t@,
                (None, None) => generated_token@,
            },
    {
        let host = match env_host {
            Some(h) => h,
            None => match file_host {
                Some(h) => h,
                None => "0.0.0.0".to_owned(),
            },
        };
        let port = match env_port {
            Some(p) => p,
            None => match file_port {
                Some(p) => p,
                None => 9876,
            },
        };
        let token = match env_token {
            Some(t) => t,
            None => match file_token {
                Some(t) => t,
                None => generated_token,
            },
        };
        Config { host, port, token }
    }
}

} // verus!
