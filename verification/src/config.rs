//! The settings the process reads from its environment.
use vstd::prelude::*;
use crate::env::{lookup, value_of, EnvVar};
use crate::text::{decimal_value, is_decimal, parse_decimal};

verus! {

/// The variable that holds the hosting application's id.
pub const GITHUB_APP_ID: &'static str = "GITHUB_APP_ID";

/// The variable that holds the application's private key, Base64-encoded.
pub const GITHUB_PRIVATE_KEY: &'static str = "GITHUB_PRIVATE_KEY";

/// The variable that points at another hosting endpoint.
pub const GITHUB_ENDPOINT: &'static str = "GITHUB_ENDPOINT";

/// The variable that, when set, switches the hosting integration off.
pub const INTEGRATION_TESTING: &'static str = "INTEGRATION_TESTING";

/// The settings of one process.
#[derive(Debug, Clone, PartialEq, Eq)]
pub struct Config {
    pub github_app_id: Option<u64>,
    pub github_private_key: Option<String>,
    pub github_endpoint: Option<String>,
    pub integration_testing: bool,
}

/// The application id that a variable's value gives: its number where the
/// value is one that fits.
pub open spec fn app_id_of(value: Option<Seq<char>>) -> Option<u64> {
    match value {
        Some(text) => if is_decimal(text) && decimal_value(text) <= u64::MAX {
            Some(decimal_value(text) as u64)
        } else {
            None
        },
        None => None,
    }
}

/// Reads the settings out of the process's variables.
pub fn config(vars: &Vec<EnvVar>) -> (config: Config)
    ensures
        config.github_app_id == app_id_of(value_of(vars.deep_view(), GITHUB_APP_ID@)),
        config.github_private_key.deep_view() == value_of(vars.deep_view(), GITHUB_PRIVATE_KEY@),
        config.github_endpoint.deep_view() == value_of(vars.deep_view(), GITHUB_ENDPOINT@),
        config.integration_testing == (value_of(vars.deep_view(), INTEGRATION_TESTING@) is Some),
{
    let github_app_id = match lookup(vars, GITHUB_APP_ID) {
        Some(text) => parse_decimal(text.as_str()),
        None => None,
    };
    Config {
        github_app_id,
        github_private_key: lookup(vars, GITHUB_PRIVATE_KEY),
        github_endpoint: lookup(vars, GITHUB_ENDPOINT),
        integration_testing: lookup(vars, INTEGRATION_TESTING).is_some(),
    }
}

impl Config {
    /// Whether the hosting service is to be used: it is unless it was
    /// switched off, and only with an application id and a key.
    pub fn hosting_enabled(&self) -> (enabled: bool)
        ensures
            enabled == (!self.integration_testing && self.github_app_id is Some
                && self.github_private_key is Some),
    {
        !self.integration_testing && self.github_app_id.is_some()
            && self.github_private_key.is_some()
    }
}

} // verus!
