use vstd::prelude::*;

use crate::text::{has_prefix, join_path, joined, same_text, starts_with, trim_end, trim_end_char};

verus! {

/// The API address used when neither the configuration nor the environment
/// names one.
pub const DEFAULT_API_URL: &'static str = "http://runbeam.lndo.site";

/// Settings kept in the configuration file.
#[derive(Debug, Clone)]
pub struct CliConfig {
    /// API address that overrides the environment.
    pub api_url: Option<String>,
}

impl Default for CliConfig {
    fn default() -> (r: CliConfig)
        ensures
            r.api_url is None,
    {
        CliConfig { api_url: None }
    }
}

/// Why a configuration change was refused.
#[derive(Debug, Clone, PartialEq, Eq)]
pub enum ConfigError {
    /// The key names no setting.
    UnknownKey { key: String },
    /// An API address must start with `http://` or `https://`.
    InvalidUrl,
}

/// Where the effective API address comes from.
#[derive(Debug, Clone, Copy, PartialEq, Eq, Structural)]
pub enum ApiUrlSource {
    ConfigFile,
    Environment,
    Default,
}

pub open spec fn http_scheme() -> Seq<char> {
    seq!['h', 't', 't', 'p', ':', '/', '/']
}

pub open spec fn https_scheme() -> Seq<char> {
    seq!['h', 't', 't', 'p', 's', ':', '/', '/']
}

/// The two spellings of the API address key.
pub open spec fn is_api_url_key_spec(key: Seq<char>) -> bool {
    key == seq!['a', 'p', 'i', '-', 'u', 'r', 'l'] || key == seq!['a', 'p', 'i', '_', 'u', 'r', 'l']
}

/// An API address names its scheme, `http://` or `https://`.
pub open spec fn is_valid_api_url_spec(value: Seq<char>) -> bool {
    has_prefix(value, http_scheme()) || has_prefix(value, https_scheme())
}

/// Where the configuration lives inside `data_dir`.
pub fn config_file_path(data_dir: &str) -> (r: String)
    ensures
        r@ == joined(data_dir@, "config.json"@),
{
    join_path(data_dir, "config.json")
}

/// Whether `key` names the API address setting (`api-url` or `api_url`).
pub fn is_api_url_key(key: &str) -> (r: bool)
    ensures
        r == is_api_url_key_spec(key@),
{
    let dash = "api-url";
    let underscore = "api_url";
    proof {
        reveal_strlit("api-url");
        reveal_strlit("api_url");
    }
    assert(dash@ =~= seq!['a', 'p', 'i', '-', 'u', 'r', 'l']);
    assert(underscore@ =~= seq!['a', 'p', 'i', '_', 'u', 'r', 'l']);
    same_text(key, dash) || same_text(key, underscore)
}

/// Whether `value` starts with `http://` or `https://`.
pub fn is_valid_api_url(value: &str) -> (r: bool)
    ensures
        r == is_valid_api_url_spec(value@),
{
    let http = "http://";
    let https = "https://";
    proof {
        reveal_strlit("http://");
        reveal_strlit("https://");
    }
    assert(http@ =~= http_scheme());
    assert(https@ =~= https_scheme());
    starts_with(value, http) || starts_with(value, https)
}

impl CliConfig {
    /// Sets `key` to `value`. The API address must name its scheme and is
    /// kept without trailing slashes.
    pub fn set(&mut self, key: &str, value: &str) -> (r: Result<(), ConfigError>)
        ensures
            !is_api_url_key_spec(key@) ==> (r matches Err(ConfigError::UnknownKey { key: k }) && k@ == key@
                && final(self).api_url == old(self).api_url),
            is_api_url_key_spec(key@) && !is_valid_api_url_spec(value@) ==> (r == Err::<(), ConfigError>(
                ConfigError::InvalidUrl,
            ) && final(self).api_url == old(self).api_url),
            is_api_url_key_spec(key@) && is_valid_api_url_spec(value@) ==> (r is Ok && (final(self).api_url matches Some(u) && u@ == trim_end(value@, '/'))),
    {
        if !is_api_url_key(key) {
            return Err(ConfigError::UnknownKey { key: String::from_str(key) });
        }
        if !is_valid_api_url(value) {
            return Err(ConfigError::InvalidUrl);
        }
        self.api_url = Some(trim_end_char(value, '/'));
        Ok(())
    }

    /// Removes the setting `key`; tells whether it was set.
    pub fn unset(&mut self, key: &str) -> (r: Result<bool, ConfigError>)
        ensures
            !is_api_url_key_spec(key@) ==> (r matches Err(ConfigError::UnknownKey { key: k }) && k@ == key@
                && final(self).api_url == old(self).api_url),
            is_api_url_key_spec(key@) ==> (r == Ok::<bool, ConfigError>(old(self).api_url is Some)
                && final(self).api_url is None),
    {
        if !is_api_url_key(key) {
            return Err(ConfigError::UnknownKey { key: String::from_str(key) });
        }
        let was_set = self.api_url.is_some();
        self.api_url = None;
        Ok(was_set)
    }
}

/// The API address in effect: the configured one, else the one from the
/// environment, else the default.
pub fn get_api_url(config: &CliConfig, env_url: Option<String>) -> (r: (String, ApiUrlSource))
    ensures
        match config.api_url {
            Some(u) => r.0 == u && r.1 == ApiUrlSource::ConfigFile,
            None => match env_url {
                Some(e) => r.0 == e && r.1 == ApiUrlSource::Environment,
                None => r.0@ == DEFAULT_API_URL@ && r.1 == ApiUrlSource::Default,
            },
        },
{
    match &config.api_url {
        Some(u) => (u.clone(), ApiUrlSource::ConfigFile),
        None => match env_url {
            Some(e) => (e, ApiUrlSource::Environment),
            None => (String::from_str(DEFAULT_API_URL), ApiUrlSource::Default),
        },
    }
}

} // verus!
