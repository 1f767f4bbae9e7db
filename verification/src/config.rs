//! Connection configuration data: authentication credentials, the startup
//! error taxonomy, and the rule that resolves credentials from what was
//! supplied on the command line.

use vstd::prelude::*;

verus! {

/// Authentication credentials for the server: basic auth (username and
/// password) or a key sent in the `API-Key` header.
#[derive(Clone, Debug, PartialEq, Eq)]
pub enum ClientAuth {
    Basic { username: String, password: String },
    ApiKey(String),
}

/// What can go wrong when assembling a configuration at startup. These are
/// fatal: no command runs after one of them.
#[derive(Copy, Clone, Debug, PartialEq, Eq, Structural)]
pub enum ConfigError {
    MissingAuth,
    MissingUrl,
    InvalidUrl,
}

/// Resolve the authentication values supplied on the command line: an API
/// key wins when present (even beside a username); otherwise a username
/// with a password (the caller prompts for a missing password before this
/// call) gives basic auth; anything else is incomplete.
pub fn resolve_auth(api_key: Option<String>, username: Option<String>, password: Option<String>) -> (r:
    Result<ClientAuth, ConfigError>)
    ensures
        api_key matches Some(k) ==> (r matches Ok(ClientAuth::ApiKey(rk)) && rk == k),
        api_key is None && username is Some && password is Some ==> (r matches Ok(
            ClientAuth::Basic { username: ru, password: rp },
        ) && ru == username->Some_0 && rp == password->Some_0),
        api_key is None && (username is None || password is None) ==> r == Err::<
            ClientAuth,
            _,
        >(ConfigError::MissingAuth),
{
    match api_key {
        Some(key) => Ok(ClientAuth::ApiKey(key)),
        None => match (username, password) {
            (Some(username), Some(password)) => Ok(ClientAuth::Basic { username, password }),
            _ => Err(ConfigError::MissingAuth),
        },
    }
}

} // verus!
