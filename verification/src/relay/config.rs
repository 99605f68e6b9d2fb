//! How the relay is set up.

use crate::environment::{env_bool, env_var, lookup, value_of, value_or, yes_or_no};
use crate::proto::{fields, Fields};
use crate::relay::rate_limit::{LimiterView, RateLimiter};
use crate::relay::registry::{Registry, RegistryView};
use crate::text::{bounded_value, parse_decimal, text_in};
use vstd::prelude::*;

verus! {

/// The length of a rate limiter's window, a minute, in nanoseconds.
pub const RATE_WINDOW: u128 = 60_000_000_000;

/// How often addresses that have made no request for a while are forgotten, in
/// seconds.
pub const CLEANUP_INTERVAL_SECS: u64 = 60;

/// The bytes in a megabyte.
pub const MEGABYTE: usize = 1_048_576;

/// What the relay is set up with.
#[derive(Debug)]
pub struct AppConfig {
    pub domain: String,
    pub auth_token: Option<String>,
    pub max_tunnels: usize,
    pub max_body_size: usize,
    pub rate_limit_rpm: u32,
    pub trust_proxy_headers: bool,
}

/// Makes the registry for a relay that is set up like this.
pub fn build_registry<C>(config: AppConfig) -> (registry: Registry<C>)
    ensures
        registry@ == (RegistryView::<C> {
            domain: config.domain@,
            auth_token: text_in(config.auth_token),
            max_tunnels: config.max_tunnels,
            tunnels: Map::empty(),
            trust_proxy_headers: config.trust_proxy_headers,
            max_body_size: config.max_body_size,
            rate_limiter: LimiterView {
                windows: Map::empty(),
                max_requests: config.rate_limit_rpm,
                window_duration: RATE_WINDOW,
            },
        }),
        registry@.wf(),
{
    let rate_limiter = RateLimiter::new(config.rate_limit_rpm, RATE_WINDOW);
    Registry::new(
        config.domain,
        config.auth_token,
        config.max_tunnels,
        config.max_body_size,
        config.trust_proxy_headers,
        rate_limiter,
    )
}

/// What a relay server is set up with.
#[derive(Debug)]
pub struct ServerConfig {
    pub port: String,
    pub drain_timeout_secs: u64,
    pub app: AppConfig,
}

/// A text, or another if there is none.
pub open spec fn text_or(value: Option<Seq<char>>, default: Seq<char>) -> Seq<char> {
    match value {
        Some(value) => value,
        None => default,
    }
}

/// A number that is not above `max`, or another if there is none.
pub open spec fn number_or(value: Option<Seq<char>>, max: nat, default: nat) -> nat {
    match value {
        Some(value) => match bounded_value(value, max) {
            Some(n) => n,
            None => default,
        },
        None => default,
    }
}

/// So many megabytes in bytes, or as many as there can be.
pub open spec fn megabytes(n: nat) -> nat {
    if n * MEGABYTE <= usize::MAX {
        n * MEGABYTE as nat
    } else {
        usize::MAX as nat
    }
}

/// Whether the environment sets the relay up like this.
pub open spec fn is_set_up(vars: Fields, config: ServerConfig) -> bool {
    &&& config.port@ == text_or(value_of(vars, "PORT"@), "8080"@)
    &&& config.drain_timeout_secs == number_or(
        value_or(vars, "PEEK_DRAIN_TIMEOUT_SECS"@, "DRAIN_TIMEOUT_SECS"@),
        u64::MAX as nat,
        30,
    )
    &&& config.app.domain@ == text_or(
        value_or(vars, "PEEK_DOMAIN"@, "RELAY_DOMAIN"@),
        "localhost"@,
    )
    &&& text_in(config.app.auth_token) == value_or(vars, "PEEK_AUTH_TOKEN"@, "RELAY_AUTH_TOKEN"@)
    &&& config.app.max_tunnels == number_or(
        value_or(vars, "PEEK_MAX_TUNNELS"@, "MAX_TUNNELS"@),
        usize::MAX as nat,
        10_000,
    )
    &&& config.app.max_body_size == megabytes(
        number_or(
            value_or(vars, "PEEK_MAX_BODY_SIZE_MB"@, "MAX_BODY_SIZE_MB"@),
            usize::MAX as nat,
            10,
        ),
    )
    &&& config.app.rate_limit_rpm == number_or(
        value_or(vars, "PEEK_RATE_LIMIT_RPM"@, "RATE_LIMIT_RPM"@),
        u32::MAX as nat,
        1000,
    )
    &&& config.app.trust_proxy_headers == (value_of(vars, "PEEK_TRUST_PROXY_HEADERS"@) matches Some(
        value,
    ) && yes_or_no(value) == Some(true))
}

/// Reads a number that is not above `max`, or takes another if there is none.
fn parse_or(value: Option<String>, max: u64, default: u64) -> (n: u64)
    requires
        default <= max,
    ensures
        n == number_or(text_in(value), max as nat, default as nat),
        n <= max,
{
    match value {
        Some(value) => match parse_decimal(value.as_str(), max) {
            Some(n) => n,
            None => default,
        },
        None => default,
    }
}

/// Sets the relay up from the environment. It does not start without a token.
pub fn server_config(vars: &[(String, String)]) -> (config: Result<ServerConfig, String>)
    ensures
        ({
            let token = value_or(fields(vars@), "PEEK_AUTH_TOKEN"@, "RELAY_AUTH_TOKEN"@);
            match config {
                Ok(config) => {
                    &&& token matches Some(token) && token.len() > 0
                    &&& is_set_up(fields(vars@), config)
                },
                Err(message) => {
                    &&& token matches Some(token) ==> token.len() == 0
                    &&& message@ == "PEEK_AUTH_TOKEN is required"@
                },
            }
        }),
{
    let port = match lookup(vars, "PORT") {
        Some(port) => port,
        None => "8080".to_owned(),
    };
    let domain = match env_var(vars, "PEEK_DOMAIN", "RELAY_DOMAIN") {
        Some(domain) => domain,
        None => "localhost".to_owned(),
    };
    let auth_token = match env_var(vars, "PEEK_AUTH_TOKEN", "RELAY_AUTH_TOKEN") {
        Some(token) => token,
        None => {
            return Err("PEEK_AUTH_TOKEN is required".to_owned());
        },
    };
    if auth_token.as_str().is_empty() {
        return Err("PEEK_AUTH_TOKEN is required".to_owned());
    }
    let max_tunnels: u64 = parse_or(
        env_var(vars, "PEEK_MAX_TUNNELS", "MAX_TUNNELS"),
        usize::MAX as u64,
        10_000,
    );
    let megabytes: u64 = parse_or(
        env_var(vars, "PEEK_MAX_BODY_SIZE_MB", "MAX_BODY_SIZE_MB"),
        usize::MAX as u64,
        10,
    );
    let max_body_size: usize = if megabytes as usize <= usize::MAX / MEGABYTE {
        megabytes as usize * MEGABYTE
    } else {
        usize::MAX
    };
    let rate_limit_rpm: u64 = parse_or(
        env_var(vars, "PEEK_RATE_LIMIT_RPM", "RATE_LIMIT_RPM"),
        u32::MAX as u64,
        1000,
    );
    let drain_timeout_secs: u64 = parse_or(
        env_var(vars, "PEEK_DRAIN_TIMEOUT_SECS", "DRAIN_TIMEOUT_SECS"),
        u64::MAX,
        30,
    );
    let trust_proxy_headers = match env_bool(vars, "PEEK_TRUST_PROXY_HEADERS") {
        Some(trust) => trust,
        None => false,
    };
    Ok(
        ServerConfig {
            port,
            drain_timeout_secs,
            app: AppConfig {
                domain,
                auth_token: Some(auth_token),
                max_tunnels: max_tunnels as usize,
                max_body_size,
                rate_limit_rpm: rate_limit_rpm as u32,
                trust_proxy_headers,
            },
        },
    )
}

} // verus!
