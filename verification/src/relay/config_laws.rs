//! What the environment makes of the relay.

use crate::environment::{value_of, value_or, yes_or_no};
use crate::proto::Fields;
use crate::relay::config::{
    is_set_up, megabytes, number_or, text_or, ServerConfig, CLEANUP_INTERVAL_SECS, RATE_WINDOW,
};
use crate::text::{bounded_value, decimal_text, lower, text_in};
use crate::text_laws::{numbers_are_digits, numbers_are_written_in_digits};
use vstd::prelude::*;

verus! {

/// A variable has the value with which it is first set; one that is not set has
/// none.
pub proof fn variables_have_their_first_value(vars: Fields, name: Seq<char>, i: int)
    ensures
        0 <= i < vars.len() && vars[i].0 == name && (forall|j: int|
            0 <= j < i ==> #[trigger] vars[j].0 != name) ==> value_of(vars, name) == Some(
            vars[i].1,
        ),
        (forall|j: int| 0 <= j < vars.len() ==> #[trigger] vars[j].0 != name) ==> value_of(
            vars,
            name,
        ) is None,
    decreases vars.len(),
{
    if vars.len() > 0 {
        let rest = vars.skip(1);
        variables_have_their_first_value(rest, name, i - 1);
        if 0 < i < vars.len() && vars[i].0 == name && (forall|j: int|
            0 <= j < i ==> #[trigger] vars[j].0 != name) {
            assert(vars[0].0 != name);
            assert(rest[i - 1] == vars[i]);
            assert forall|j: int| 0 <= j < i - 1 implies #[trigger] rest[j].0 != name by {
                assert(rest[j] == vars[j + 1]);
            }
        }
        if forall|j: int| 0 <= j < vars.len() ==> #[trigger] vars[j].0 != name {
            assert(vars[0].0 != name);
            assert forall|j: int| 0 <= j < rest.len() implies #[trigger] rest[j].0 != name by {
                assert(rest[j] == vars[j + 1]);
            }
        }
    }
}

/// A variable counts before the one that may stand for it.
pub proof fn first_name_counts(vars: Fields, primary: Seq<char>, fallback: Seq<char>)
    ensures
        value_of(vars, primary) is Some ==> value_or(vars, primary, fallback) == value_of(
            vars,
            primary,
        ),
        value_of(vars, primary) is None ==> value_or(vars, primary, fallback) == value_of(
            vars,
            fallback,
        ),
{
}

/// Four words say yes and four say no, whatever their case; all others say
/// neither.
pub proof fn eight_words_are_understood(value: Seq<char>)
    ensures
        yes_or_no(value) == Some(true) <==> lower(value) == "1"@ || lower(value) == "true"@
            || lower(value) == "yes"@ || lower(value) == "on"@,
        yes_or_no(value) == Some(false) <==> lower(value) == "0"@ || lower(value) == "false"@
            || lower(value) == "no"@ || lower(value) == "off"@,
{
    reveal_strlit("1");
    reveal_strlit("true");
    reveal_strlit("yes");
    reveal_strlit("on");
    reveal_strlit("0");
    reveal_strlit("false");
    reveal_strlit("no");
    reveal_strlit("off");
    assert("1"@[0] == '1');
    assert("true"@[0] == 't');
    assert("yes"@[0] == 'y');
    assert("on"@[1] == 'n');
    assert("0"@[0] == '0');
    assert("false"@[0] == 'f');
    assert("no"@[0] == 'n');
    assert("off"@[1] == 'f');
    assert("on"@[0] == 'o');
    assert("off"@[0] == 'o');
}

/// A number that is written down, and is not above `max`, is taken; without one, or
/// if it is too large or no number at all, the default is.
pub proof fn numbers_are_taken(n: nat, max: nat, default: nat, value: Seq<char>)
    ensures
        n <= max ==> number_or(Some(decimal_text(n)), max, default) == n,
        n > max ==> number_or(Some(decimal_text(n)), max, default) == default,
        bounded_value(value, max) is None ==> number_or(Some(value), max, default) == default,
        number_or(None, max, default) == default,
        text_or(Some(value), value) == value,
{
    numbers_are_written_in_digits(n);
    numbers_are_digits(decimal_text(n));
}

/// The relay is set up from these variables, each with a second name that counts if
/// the first is not set, and with these defaults.
pub proof fn settings_come_from_these_variables(vars: Fields, config: ServerConfig)
    requires
        is_set_up(vars, config),
    ensures
        config.port@ == (match value_of(vars, "PORT"@) {
            Some(port) => port,
            None => "8080"@,
        }),
        config.app.domain@ == (match value_or(vars, "PEEK_DOMAIN"@, "RELAY_DOMAIN"@) {
            Some(domain) => domain,
            None => "localhost"@,
        }),
        text_in(config.app.auth_token) == value_or(
            vars,
            "PEEK_AUTH_TOKEN"@,
            "RELAY_AUTH_TOKEN"@,
        ),
        config.app.max_tunnels == (match value_or(vars, "PEEK_MAX_TUNNELS"@, "MAX_TUNNELS"@) {
            Some(said) => match bounded_value(said, usize::MAX as nat) {
                Some(n) => n,
                None => 10_000,
            },
            None => 10_000,
        }),
        config.app.rate_limit_rpm == (match value_or(
            vars,
            "PEEK_RATE_LIMIT_RPM"@,
            "RATE_LIMIT_RPM"@,
        ) {
            Some(said) => match bounded_value(said, u32::MAX as nat) {
                Some(n) => n,
                None => 1000,
            },
            None => 1000,
        }),
        config.drain_timeout_secs == (match value_or(
            vars,
            "PEEK_DRAIN_TIMEOUT_SECS"@,
            "DRAIN_TIMEOUT_SECS"@,
        ) {
            Some(said) => match bounded_value(said, u64::MAX as nat) {
                Some(n) => n,
                None => 30,
            },
            None => 30,
        }),
        ({
            let megabytes = match value_or(
                vars,
                "PEEK_MAX_BODY_SIZE_MB"@,
                "MAX_BODY_SIZE_MB"@,
            ) {
                Some(said) => match bounded_value(said, usize::MAX as nat) {
                    Some(n) => n,
                    None => 10,
                },
                None => 10,
            };
            &&& megabytes * 1024 * 1024 <= usize::MAX ==> config.app.max_body_size == megabytes
                * 1024 * 1024
            &&& megabytes * 1024 * 1024 > usize::MAX ==> config.app.max_body_size == usize::MAX
        }),
        config.app.trust_proxy_headers <==> (value_of(
            vars,
            "PEEK_TRUST_PROXY_HEADERS"@,
        ) matches Some(said) && (lower(said) == "1"@ || lower(said) == "true"@ || lower(said)
            == "yes"@ || lower(said) == "on"@)),
{
}

/// Requests are counted by the minute, and every minute old counts are forgotten.
pub proof fn requests_are_counted_by_the_minute()
    ensures
        RATE_WINDOW == 60 * 1_000_000_000,
        CLEANUP_INTERVAL_SECS == 60,
{
}

} // verus!
