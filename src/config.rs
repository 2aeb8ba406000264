//! Link configuration: where a tenant's pool connects and how it is tuned,
//! with the defaults that apply to every setting left out.

use vstd::prelude::*;

use crate::error::Error;

verus! {

/// Largest number of connections of a pool.
pub const DEFAULT_MAX_CONNECTIONS: u32 = 8;

/// Number of idle connections a pool keeps in reserve.
pub const DEFAULT_MIN_IDLE: u32 = 0;

/// Age in seconds after which a connection is retired once its current
/// request is done.
pub const DEFAULT_MAX_LIFETIME_SEC: u32 = 7200;

/// Seconds a connection may stay unused before it is closed.
pub const DEFAULT_IDLE_TIMEOUT_SEC: u32 = 600;

/// Milliseconds to wait for a connection from the pool.
pub const DEFAULT_CONNECTION_TIMEOUT_MILLIS: u32 = 1000;

/// Pool tuning as configured; each setting may be left out.
#[derive(Clone, Debug, PartialEq, Eq)]
pub struct PoolOptions {
    pub max_connections: Option<u32>,
    pub min_idle: Option<u32>,
    pub max_lifetime_secs: Option<u32>,
    pub idle_timeout_secs: Option<u32>,
    pub connection_timeout_millis: Option<u32>,
}

/// The configuration of one link.
#[derive(Clone, Debug, PartialEq, Eq)]
pub struct Config {
    /// Database connection URI.
    pub uri: String,
    /// Path to a root certificate for TLS.
    pub root_cert: Option<String>,
    pub pool: PoolOptions,
}

/// Pool tuning with every setting decided.
#[derive(Clone, Copy, Debug, PartialEq, Eq, Structural)]
pub struct PoolSettings {
    pub max_connections: u32,
    pub min_connections: u32,
    pub max_lifetime_secs: u64,
    pub idle_timeout_secs: u64,
    pub acquire_timeout_millis: u64,
}

/// The configured value, or the default where it is left out.
pub open spec fn or_default(v: Option<u32>, d: u32) -> u32 {
    match v {
        Some(x) => x,
        None => d,
    }
}

fn unwrap_or(v: Option<u32>, d: u32) -> (r: u32)
    ensures
        r == or_default(v, d),
{
    match v {
        Some(x) => x,
        None => d,
    }
}

impl PoolOptions {
    /// No setting given.
    pub fn unset() -> (r: PoolOptions)
        ensures
            r.max_connections is None,
            r.min_idle is None,
            r.max_lifetime_secs is None,
            r.idle_timeout_secs is None,
            r.connection_timeout_millis is None,
    {
        PoolOptions {
            max_connections: None,
            min_idle: None,
            max_lifetime_secs: None,
            idle_timeout_secs: None,
            connection_timeout_millis: None,
        }
    }

    /// The settings of the pool: each configured value, else its default.
    pub fn settings(&self) -> (r: PoolSettings)
        ensures
            r.max_connections == or_default(self.max_connections, DEFAULT_MAX_CONNECTIONS),
            r.min_connections == or_default(self.min_idle, DEFAULT_MIN_IDLE),
            r.max_lifetime_secs == or_default(self.max_lifetime_secs, DEFAULT_MAX_LIFETIME_SEC),
            r.idle_timeout_secs == or_default(self.idle_timeout_secs, DEFAULT_IDLE_TIMEOUT_SEC),
            r.acquire_timeout_millis == or_default(
                self.connection_timeout_millis,
                DEFAULT_CONNECTION_TIMEOUT_MILLIS,
            ),
    {
        PoolSettings {
            max_connections: unwrap_or(self.max_connections, DEFAULT_MAX_CONNECTIONS),
            min_connections: unwrap_or(self.min_idle, DEFAULT_MIN_IDLE),
            max_lifetime_secs: unwrap_or(self.max_lifetime_secs, DEFAULT_MAX_LIFETIME_SEC) as u64,
            idle_timeout_secs: unwrap_or(self.idle_timeout_secs, DEFAULT_IDLE_TIMEOUT_SEC) as u64,
            acquire_timeout_millis: unwrap_or(
                self.connection_timeout_millis,
                DEFAULT_CONNECTION_TIMEOUT_MILLIS,
            ) as u64,
        }
    }
}

impl Config {
    /// No URI, no certificate, no pool setting.
    pub fn unset() -> (r: Config)
        ensures
            r.uri@.len() == 0,
            r.root_cert is None,
            r.pool.max_connections is None,
            r.pool.min_idle is None,
            r.pool.max_lifetime_secs is None,
            r.pool.idle_timeout_secs is None,
            r.pool.connection_timeout_millis is None,
    {
        Config { uri: String::new(), root_cert: None, pool: PoolOptions::unset() }
    }
}

/// The values of a link definition that configure it.
#[derive(Clone, Debug, PartialEq, Eq)]
pub struct LinkValues {
    /// The configuration as JSON text.
    pub config_json: Option<String>,
    /// The configuration as JSON, base64-encoded without padding.
    pub config_b64: Option<String>,
    /// The connection URI, overriding the one in the configuration.
    pub uri: Option<String>,
}

/// Where the JSON configuration of a link is read from.
#[derive(Clone, Debug, PartialEq, Eq)]
pub enum ConfigSource {
    /// No JSON configuration: every setting is unset.
    Unset,
    /// JSON text.
    Text(String),
    /// JSON bytes.
    Bytes(Vec<u8>),
}

/// What the standard base64 alphabet without padding decodes `s` to; `None`
/// where `s` is not such an encoding.
pub uninterp spec fn b64_no_pad_decoded(s: Seq<char>) -> Option<Seq<u8>>;

/// Relies on base64's `STANDARD_NO_PAD` engine and its `decode`.
#[verifier::external_body]
fn decode_b64(s: &str) -> (r: Option<Vec<u8>>)
    ensures
        match b64_no_pad_decoded(s@) {
            Some(b) => r is Some && r->Some_0@ == b,
            None => r is None,
        },
{
    base64::Engine::decode(&base64::engine::general_purpose::STANDARD_NO_PAD, s).ok()
}

/// Picks the JSON configuration of a link: `config_json` if given, else the
/// decoding of `config_b64` if given (an error where it is not base64), else
/// none.
pub fn config_source(v: &LinkValues) -> (r: Result<ConfigSource, Error>)
    ensures
        v.config_json is Some ==> r is Ok && r->Ok_0 is Text && r->Ok_0->Text_0@
            == v.config_json->Some_0@,
        v.config_json is None && v.config_b64 is Some ==> match b64_no_pad_decoded(
            v.config_b64->Some_0@,
        ) {
            Some(b) => r is Ok && r->Ok_0 is Bytes && r->Ok_0->Bytes_0@ == b,
            None => r is Err && r->Err_0 is ProviderInit && r->Err_0->ProviderInit_0@
                == "invalid config_b64 encoding"@,
        },
        v.config_json is None && v.config_b64 is None ==> r is Ok && r->Ok_0 is Unset,
{
    match &v.config_json {
        Some(j) => Ok(ConfigSource::Text(j.clone())),
        None => match &v.config_b64 {
            Some(b) => match decode_b64(b.as_str()) {
                Some(bytes) => Ok(ConfigSource::Bytes(bytes)),
                None => Err(Error::ProviderInit(String::from_str("invalid config_b64 encoding"))),
            },
            None => Ok(ConfigSource::Unset),
        },
    }
}

/// Completes a parsed configuration: a `uri` link value replaces the
/// configured URI; a configuration left without a URI is refused.
pub fn finish_config(parsed: Config, uri: &Option<String>) -> (r: Result<Config, Error>)
    ensures
        ({
            let u = match uri {
                Some(s) => s@,
                None => parsed.uri@,
            };
            &&& u.len() == 0 ==> r is Err && r->Err_0 is ProviderInit && r->Err_0->ProviderInit_0@
                == "link params values are missing 'uri'"@
            &&& u.len() > 0 ==> r is Ok && r->Ok_0.uri@ == u && r->Ok_0.pool == parsed.pool
                && r->Ok_0.root_cert == parsed.root_cert
        }),
{
    let mut config = parsed;
    match uri {
        Some(s) => config.uri = s.clone(),
        None => {},
    }
    if config.uri.as_str().is_empty() {
        Err(Error::ProviderInit(String::from_str("link params values are missing 'uri'")))
    } else {
        Ok(config)
    }
}

} // verus!
