//! Application configuration, read from the values of environment variables.

use vstd::prelude::*;
use crate::text::{chars_of, parse_u16, parse_u16_spec, parse_u64, parse_u64_spec, string_from_chars};

verus! {

/// The port the API listens on when `API_PORT` is not set.
pub const DEFAULT_API_PORT: &'static str = "8083";

/// The pause between two requests to cagematch.net, in milliseconds, when
/// `SCRAPER_RATE_LIMIT_MS` is not set: one request per second.
pub const DEFAULT_SCRAPER_RATE_LIMIT_MS: &'static str = "1000";

/// The `User-Agent` sent to cagematch.net when `SCRAPER_USER_AGENT` is not set.
pub const DEFAULT_SCRAPER_USER_AGENT: &'static str = "suplex";

/// Application configuration.
pub struct Config {
    pub database_url: String,
    pub api_port: u16,
    pub scraper_user_agent: String,
    pub scraper_rate_limit_ms: u64,
}

/// Why a configuration cannot be built.
#[derive(Clone, Copy, Debug, PartialEq, Eq, Structural)]
pub enum ConfigError {
    MissingDatabaseUrl,
    InvalidApiPort,
    InvalidRateLimit,
}

impl ConfigError {
    /// The message that reports this error.
    pub open spec fn text(self) -> Seq<char> {
        match self {
            ConfigError::MissingDatabaseUrl => "DATABASE_URL must be set"@,
            ConfigError::InvalidApiPort => "API_PORT must be a valid port number"@,
            ConfigError::InvalidRateLimit => "SCRAPER_RATE_LIMIT_MS must be a number of milliseconds"@,
        }
    }

    /// The message that reports this error.
    pub fn message(&self) -> (r: &'static str)
        ensures
            r@ == self.text(),
    {
        match self {
            ConfigError::MissingDatabaseUrl => "DATABASE_URL must be set",
            ConfigError::InvalidApiPort => "API_PORT must be a valid port number",
            ConfigError::InvalidRateLimit => "SCRAPER_RATE_LIMIT_MS must be a number of milliseconds",
        }
    }
}

/// The value of a variable, or `default` when it is not set.
pub open spec fn value_or(value: Option<String>, default: Seq<char>) -> Seq<char> {
    match value {
        Some(v) => v@,
        None => default,
    }
}

/// The characters of `value`, or of `default` when it is `None`.
fn chars_or(value: &Option<String>, default: &str) -> (r: Vec<char>)
    ensures
        r@ == value_or(*value, default@),
{
    match value {
        Some(v) => chars_of(v.as_str()),
        None => chars_of(default),
    }
}

impl Config {
    /// The configuration given by the values of `DATABASE_URL`, `API_PORT`,
    /// `SCRAPER_USER_AGENT` and `SCRAPER_RATE_LIMIT_MS` (`None` for a variable
    /// that is not set). The database address is required; the others have
    /// defaults; the port and the rate limit must parse as numbers.
    pub fn from_values(
        database_url: Option<String>,
        api_port: Option<String>,
        scraper_user_agent: Option<String>,
        scraper_rate_limit_ms: Option<String>,
    ) -> (r: Result<Config, ConfigError>)
        ensures
            database_url is None ==> r == Err::<Config, ConfigError>(
                ConfigError::MissingDatabaseUrl,
            ),
            database_url is Some && parse_u16_spec(value_or(api_port, DEFAULT_API_PORT@)) is None
                ==> r == Err::<Config, ConfigError>(ConfigError::InvalidApiPort),
            database_url is Some && parse_u16_spec(value_or(api_port, DEFAULT_API_PORT@)) is Some
                && parse_u64_spec(value_or(scraper_rate_limit_ms, DEFAULT_SCRAPER_RATE_LIMIT_MS@))
                is None ==> r == Err::<Config, ConfigError>(ConfigError::InvalidRateLimit),
            database_url is Some && parse_u16_spec(value_or(api_port, DEFAULT_API_PORT@)) is Some
                && parse_u64_spec(value_or(scraper_rate_limit_ms, DEFAULT_SCRAPER_RATE_LIMIT_MS@))
                is Some ==> r is Ok,
            r matches Ok(c) ==> {
                &&& database_url matches Some(u) && c.database_url@ == u@
                &&& parse_u16_spec(value_or(api_port, DEFAULT_API_PORT@)) == Some(c.api_port)
                &&& c.scraper_user_agent@ == value_or(
                    scraper_user_agent,
                    DEFAULT_SCRAPER_USER_AGENT@,
                )
                &&& parse_u64_spec(value_or(scraper_rate_limit_ms, DEFAULT_SCRAPER_RATE_LIMIT_MS@))
                    == Some(c.scraper_rate_limit_ms)
            },
    {
        let database_url = match database_url {
            Some(u) => u,
            None => return Err(ConfigError::MissingDatabaseUrl),
        };
        let api_port = match parse_u16(&chars_or(&api_port, DEFAULT_API_PORT)) {
            Some(p) => p,
            None => return Err(ConfigError::InvalidApiPort),
        };
        let scraper_rate_limit_ms = match parse_u64(
            &chars_or(&scraper_rate_limit_ms, DEFAULT_SCRAPER_RATE_LIMIT_MS),
        ) {
            Some(ms) => ms,
            None => return Err(ConfigError::InvalidRateLimit),
        };
        let scraper_user_agent = string_from_chars(
            &chars_or(&scraper_user_agent, DEFAULT_SCRAPER_USER_AGENT),
        );
        Ok(Config { database_url, api_port, scraper_user_agent, scraper_rate_limit_ms })
    }
}

} // verus!
