//! What the command line and the environment mean to the client.

use crate::client::args::{
    address_url, invocation, is_told, local_port, padded, result_in, said_by_environment, summary,
    summary_border, summary_row, summary_width, with_options, Command, Invocation, InvocationView,
    Options, OptionsView,
};
use crate::environment::value_of;
use crate::proto::Fields;
use crate::proto_laws::lemma_encode_ascii_scalar;
use crate::seq_laws::{first_place_is_found, pieces_part_at_separators, stands_at};
use crate::seqs::{first_match, pieces};
use crate::text::{bounded_value, decimal_text, text_in};
use crate::text_laws::{numbers_are_digits, numbers_are_written_in_digits};
use vstd::prelude::*;
use vstd::utf8::encode_utf8;

verus! {

/// The values that options have, by the names of the options.
pub open spec fn said_for(said: OptionsView, option: Seq<char>) -> Option<Seq<char>> {
    if option == "--server"@ {
        said.server
    } else if option == "--domain"@ {
        said.domain
    } else if option == "--token"@ {
        said.token
    } else if option == "--password"@ {
        said.password
    } else {
        said.subdomain
    }
}

/// The five options.
pub open spec fn is_known(option: Seq<char>) -> bool {
    option == "--server"@ || option == "--domain"@ || option == "--token"@ || option
        == "--password"@ || option == "--subdomain"@
}

/// Whether a text may be the value of an option: it does not begin with two
/// dashes.
pub open spec fn is_value(text: Seq<char>) -> bool {
    !(text.len() >= 2 && text[0] == '-' && text[1] == '-')
}

proof fn lemma_value(text: Seq<char>)
    ensures
        is_value(text) <==> !("--"@).is_prefix_of(text),
        is_known(text) ==> !is_value(text),
{
    reveal_strlit("--");
    reveal_strlit("--server");
    reveal_strlit("--domain");
    reveal_strlit("--token");
    reveal_strlit("--password");
    reveal_strlit("--subdomain");
    if !is_value(text) {
        assert("--"@ =~= text.subrange(0, 2));
    }
    if ("--"@).is_prefix_of(text) {
        assert(text.subrange(0, 2)[0] == '-');
        assert(text.subrange(0, 2)[1] == '-');
    }
}

/// Arguments that are options with their values, two by two.
pub open spec fn are_pairs(args: Seq<Seq<char>>) -> bool {
    &&& args.len() % 2 == 0
    &&& forall|i: int|
        0 <= i < args.len() ==> if i % 2 == 0 {
            is_known(#[trigger] args[i])
        } else {
            is_value(args[i])
        }
}

proof fn lemma_options(said: OptionsView, args: Seq<Seq<char>>)
    ensures
        with_options(said, args) is Ok <==> are_pairs(args),
        with_options(said, args) matches Ok(result) ==> forall|option: Seq<char>|
            #![trigger said_for(result, option)]
            is_known(option) ==> {
                &&& !args.contains(option) ==> said_for(result, option) == said_for(said, option)
                &&& forall|i: int|
                    0 <= i < args.len() && #[trigger] args[i] == option && (forall|j: int|
                        i < j < args.len() ==> #[trigger] args[j] != option) ==> i + 1 < args.len()
                        && said_for(result, option) == Some(args[i + 1])
            },
    decreases args.len(),
{
    if args.len() > 0 {
        lemma_value(args[0]);
        if args.len() > 1 {
            lemma_value(args[1]);
            assert(args.skip(1)[0] == args[1]);
        }
        if is_known(args[0]) && args.len() > 1 && is_value(args[1]) {
            let rest = args.skip(2);
            let next = said.set(args[0], args[1])->0;
            lemma_options(next, rest);
            assert(with_options(said, args) == with_options(next, rest));
            if are_pairs(args) {
                assert forall|i: int| 0 <= i < rest.len() implies if i % 2 == 0 {
                    is_known(#[trigger] rest[i])
                } else {
                    is_value(rest[i])
                } by {
                    assert(rest[i] == args[i + 2]);
                }
            }
            if are_pairs(rest) {
                assert forall|i: int| 0 <= i < args.len() implies if i % 2 == 0 {
                    is_known(#[trigger] args[i])
                } else {
                    is_value(args[i])
                } by {
                    if i >= 2 {
                        assert(args[i] == rest[i - 2]);
                    }
                }
            }
            if let Ok(result) = with_options(said, args) {
                assert forall|option: Seq<char>|
                    #![trigger said_for(result, option)]
                    is_known(option) implies {
                    &&& !args.contains(option) ==> said_for(result, option) == said_for(
                        said,
                        option,
                    )
                    &&& forall|i: int|
                        0 <= i < args.len() && #[trigger] args[i] == option && (forall|j: int|
                            i < j < args.len() ==> #[trigger] args[j] != option) ==> i + 1
                            < args.len() && said_for(result, option) == Some(args[i + 1])
                } by {
                    lemma_value(option);
                    if !args.contains(option) {
                        assert(!rest.contains(option)) by {
                            if rest.contains(option) {
                                let k = choose|k: int| 0 <= k < rest.len() && rest[k] == option;
                                assert(args[k + 2] == option);
                            }
                        }
                        assert(args[0] != option);
                    }
                    assert forall|i: int|
                        0 <= i < args.len() && #[trigger] args[i] == option && (forall|j: int|
                            i < j < args.len() ==> #[trigger] args[j] != option) implies i + 1
                        < args.len() && said_for(result, option) == Some(args[i + 1]) by {
                        if i == 0 {
                            assert(!rest.contains(option)) by {
                                if rest.contains(option) {
                                    let k = choose|k: int|
                                        0 <= k < rest.len() && rest[k] == option;
                                    assert(args[k + 2] == option);
                                }
                            }
                        } else {
                            assert(i != 1);
                            assert(rest[i - 2] == option);
                            assert forall|j: int| i - 2 < j < rest.len() implies #[trigger] rest[j]
                                != option by {
                                assert(rest[j] == args[j + 2]);
                            }
                            assert(rest[i - 1] == args[i + 1]);
                        }
                    }
                }
            }
        } else {
            if are_pairs(args) {
                assert(is_known(args[0]));
                assert(is_value(args[1]));
            }
        }
    }
}

/// The options are understood if they are known ones, each with a value after it;
/// and the last value of each counts.
pub proof fn last_value_of_an_option_counts(
    said: OptionsView,
    args: Seq<Seq<char>>,
    result: OptionsView,
    option: Seq<char>,
    i: int,
)
    requires
        with_options(said, args) == Ok::<OptionsView, Seq<char>>(result),
        0 <= i < args.len(),
        args[i] == option,
        forall|j: int| i < j < args.len() ==> #[trigger] args[j] != option,
    ensures
        option == "--server"@ ==> i + 1 < args.len() && result.server == Some(args[i + 1]),
        option == "--domain"@ ==> i + 1 < args.len() && result.domain == Some(args[i + 1]),
        option == "--token"@ ==> i + 1 < args.len() && result.token == Some(args[i + 1]),
        option == "--password"@ ==> i + 1 < args.len() && result.password == Some(args[i + 1]),
        option == "--subdomain"@ ==> i + 1 < args.len() && result.subdomain == Some(args[i + 1]),
{
    lemma_options(said, args);
    lemma_names();
    let value = said_for(result, option);
}

/// An option that is not among the arguments keeps the value it has.
pub proof fn options_that_are_not_given_stay(
    said: OptionsView,
    args: Seq<Seq<char>>,
    result: OptionsView,
)
    requires
        with_options(said, args) == Ok::<OptionsView, Seq<char>>(result),
    ensures
        !args.contains("--server"@) ==> result.server == said.server,
        !args.contains("--domain"@) ==> result.domain == said.domain,
        !args.contains("--token"@) ==> result.token == said.token,
        !args.contains("--password"@) ==> result.password == said.password,
        !args.contains("--subdomain"@) ==> result.subdomain == said.subdomain,
{
    lemma_options(said, args);
    lemma_names();
    let values = (
        said_for(result, "--server"@),
        said_for(result, "--domain"@),
        said_for(result, "--token"@),
        said_for(result, "--password"@),
        said_for(result, "--subdomain"@),
    );
}

proof fn lemma_names()
    ensures
        "--server"@ != "--domain"@,
        "--server"@ != "--token"@,
        "--server"@ != "--password"@,
        "--server"@ != "--subdomain"@,
        "--domain"@ != "--token"@,
        "--domain"@ != "--password"@,
        "--domain"@ != "--subdomain"@,
        "--token"@ != "--password"@,
        "--token"@ != "--subdomain"@,
        "--password"@ != "--subdomain"@,
{
    reveal_strlit("--server");
    reveal_strlit("--domain");
    reveal_strlit("--token");
    reveal_strlit("--password");
    reveal_strlit("--subdomain");
    assert("--server"@[2] == 's');
    assert("--domain"@[2] == 'd');
    assert("--token"@[2] == 't');
    assert("--password"@[2] == 'p');
    assert("--subdomain"@.len() == 11);
    assert("--server"@.len() == 8);
}

/// Options are understood from the first to the last: the first one that is not
/// known, or has no value after it, is what is wrong, and otherwise nothing is.
pub proof fn first_wrong_option_is_told(said: OptionsView, args: Seq<Seq<char>>, i: int)
    ensures
        with_options(said, args) is Ok <==> are_pairs(args),
        0 <= i < args.len() && i % 2 == 0 && are_pairs(args.take(i)) ==> {
            &&& !is_known(args[i]) ==> with_options(said, args) == Err::<OptionsView, Seq<char>>(
                "unknown option: "@ + args[i],
            )
            &&& is_known(args[i]) && (i + 1 == args.len() || !is_value(args[i + 1]))
                ==> with_options(said, args) == Err::<OptionsView, Seq<char>>(
                args[i] + " needs a value"@,
            )
        },
    decreases args.len(),
{
    lemma_options(said, args);
    if 0 <= i < args.len() && i % 2 == 0 && are_pairs(args.take(i)) {
        lemma_value(args[0]);
        if args.len() > 1 {
            lemma_value(args[1]);
            assert(args.skip(1)[0] == args[1]);
        }
        if i > 0 {
            let rest = args.skip(2);
            assert(is_known(args.take(i)[0]));
            assert(is_value(args.take(i)[1]));
            let next = said.set(args[0], args[1])->0;
            assert(rest.take(i - 2) =~= args.take(i).skip(2));
            assert forall|k: int| 0 <= k < i - 2 implies if k % 2 == 0 {
                is_known(#[trigger] rest.take(i - 2)[k])
            } else {
                is_value(rest.take(i - 2)[k])
            } by {
                assert(args.take(i)[k + 2] == rest.take(i - 2)[k]);
            }
            first_wrong_option_is_told(next, rest, i - 2);
            assert(rest[i - 2] == args[i]);
            if i + 1 < args.len() {
                assert(rest[i - 1] == args[i + 1]);
            }
        }
    }
}

/// The last `--server` among the arguments is the relay's address, whatever else
/// is said; without one the environment's is; and without that, the domain's, of
/// which again the last one among the arguments counts.
pub proof fn relay_is_where_it_is_said_to_be(
    args: Seq<Seq<char>>,
    vars: Fields,
    url: Option<Option<u16>>,
    draws: Seq<u8>,
    invoked: InvocationView,
    i: int,
)
    requires
        invocation(args, vars, url, draws) == Ok::<InvocationView, Seq<char>>(invoked),
    ensures
        1 <= i < args.len() && args[i] == "--server"@ && (forall|j: int|
            i < j < args.len() ==> #[trigger] args[j] != "--server"@) ==> i + 1 < args.len()
            && invoked.server_url == args[i + 1],
        !args.skip(1).contains("--server"@) ==> {
            &&& value_of(vars, "PEEK_SERVER"@) matches Some(server) ==> invoked.server_url
                == server
            &&& value_of(vars, "PEEK_SERVER"@) is None && 1 <= i < args.len() && args[i]
                == "--domain"@ && (forall|j: int|
                i < j < args.len() ==> #[trigger] args[j] != "--domain"@) ==> i + 1 < args.len()
                && invoked.server_url == "wss://"@ + args[i + 1] + "/tunnel"@
            &&& value_of(vars, "PEEK_SERVER"@) is None && !args.skip(1).contains("--domain"@) ==> {
                &&& value_of(vars, "PEEK_DOMAIN"@) matches Some(domain)
                &&& invoked.server_url == "wss://"@ + domain + "/tunnel"@
            }
        },
{
    let rest = args.skip(1);
    let said = with_options(said_by_environment(vars), rest)->Ok_0;
    options_that_are_not_given_stay(said_by_environment(vars), rest, said);
    if 1 <= i < args.len() && (forall|j: int|
        i < j < args.len() ==> #[trigger] args[j] != args[i]) {
        assert(rest[i - 1] == args[i]);
        assert forall|j: int| i - 1 < j < rest.len() implies #[trigger] rest[j] != args[i] by {
            assert(rest[j] == args[j + 1]);
        }
        last_value_of_an_option_counts(said_by_environment(vars), rest, said, args[i], i - 1);
        if i + 1 < args.len() {
            assert(rest[i] == args[i + 1]);
        }
    }
}

/// The token, the password and the subdomain are the last ones among the
/// arguments; without one the environment's token and password count, and if there
/// is no password at all, one is drawn.
pub proof fn secrets_are_what_they_are_said_to_be(
    args: Seq<Seq<char>>,
    vars: Fields,
    url: Option<Option<u16>>,
    draws: Seq<u8>,
    invoked: InvocationView,
    i: int,
)
    requires
        invocation(args, vars, url, draws) == Ok::<InvocationView, Seq<char>>(invoked),
    ensures
        1 <= i < args.len() && (forall|j: int|
            i < j < args.len() ==> #[trigger] args[j] != args[i]) ==> {
            &&& args[i] == "--token"@ ==> i + 1 < args.len() && invoked.token == Some(args[i + 1])
            &&& args[i] == "--password"@ ==> i + 1 < args.len() && invoked.password == args[i + 1]
            &&& args[i] == "--subdomain"@ ==> i + 1 < args.len() && invoked.subdomain == Some(
                args[i + 1],
            )
        },
        !args.skip(1).contains("--token"@) ==> if value_of(vars, "PEEK_TOKEN"@) is Some {
            invoked.token == value_of(vars, "PEEK_TOKEN"@)
        } else {
            invoked.token == value_of(vars, "PEEK_AUTH_TOKEN"@)
        },
        !args.skip(1).contains("--password"@) ==> match value_of(vars, "PEEK_PASSWORD"@) {
            Some(password) => invoked.password == password,
            None => {
                &&& invoked.password.len() == draws.len()
                &&& forall|k: int|
                    0 <= k < draws.len() ==> #[trigger] invoked.password[k] == (if draws[k] < 10 {
                        ('0' as u32 + draws[k]) as char
                    } else {
                        ('a' as u32 + draws[k] - 10) as char
                    })
            },
        },
        !args.skip(1).contains("--subdomain"@) ==> invoked.subdomain is None,
{
    let rest = args.skip(1);
    let said = with_options(said_by_environment(vars), rest)->Ok_0;
    options_that_are_not_given_stay(said_by_environment(vars), rest, said);
    if 1 <= i < args.len() && (forall|j: int|
        i < j < args.len() ==> #[trigger] args[j] != args[i]) {
        assert(rest[i - 1] == args[i]);
        assert forall|j: int| i - 1 < j < rest.len() implies #[trigger] rest[j] != args[i] by {
            assert(rest[j] == args[j + 1]);
        }
        last_value_of_an_option_counts(said_by_environment(vars), rest, said, args[i], i - 1);
        if i + 1 < args.len() {
            assert(rest[i] == args[i + 1]);
        }
    }
}

/// What is wrong is told in this order: that there is no local address, what is
/// wrong with it, what is wrong with the options, and that there is no relay.
pub proof fn what_is_wrong_first_is_told(
    args: Seq<Seq<char>>,
    vars: Fields,
    url: Option<Option<u16>>,
    draws: Seq<u8>,
)
    ensures
        args.len() == 0 ==> invocation(args, vars, url, draws) == Err::<InvocationView, Seq<char>>(
            "missing local address"@,
        ),
        args.len() > 0 ==> match local_port(args[0], url) {
            Err(message) => invocation(args, vars, url, draws) == Err::<InvocationView, Seq<char>>(
                message,
            ),
            Ok(port) => {
                let said = OptionsView {
                    server: value_of(vars, "PEEK_SERVER"@),
                    domain: value_of(vars, "PEEK_DOMAIN"@),
                    token: if value_of(vars, "PEEK_TOKEN"@) is Some {
                        value_of(vars, "PEEK_TOKEN"@)
                    } else {
                        value_of(vars, "PEEK_AUTH_TOKEN"@)
                    },
                    password: value_of(vars, "PEEK_PASSWORD"@),
                    subdomain: None,
                };
                match with_options(said, args.skip(1)) {
                    Err(message) => invocation(args, vars, url, draws) == Err::<
                        InvocationView,
                        Seq<char>,
                    >(message),
                    Ok(said) => if said.server is None && said.domain is None {
                        invocation(args, vars, url, draws) == Err::<InvocationView, Seq<char>>(
                            "missing --server, --domain, PEEK_SERVER, or PEEK_DOMAIN"@,
                        )
                    } else {
                        &&& invocation(args, vars, url, draws) matches Ok(invoked)
                        &&& invoked.port == port
                        &&& invoked.local_url == address_url(args[0], port)
                    },
                }
            },
        },
{
}

/// How the client is used is told if and only if it is asked for, by either name,
/// anywhere among the arguments.
pub proof fn help_is_given_when_asked_for(
    command: Result<Command, String>,
    args: Seq<Seq<char>>,
    vars: Fields,
    url: Option<Option<u16>>,
    draws: Seq<u8>,
)
    requires
        is_told(command, args, vars, url, draws),
    ensures
        command matches Ok(Command::Help) <==> args.contains("--help"@) || args.contains("-h"@),
        command matches Ok(Command::Open(invoked)) ==> invocation(args, vars, url, draws) == Ok::<
            InvocationView,
            Seq<char>,
        >(invoked@),
        command matches Err(message) ==> invocation(args, vars, url, draws) == Err::<
            InvocationView,
            Seq<char>,
        >(message@),
{
}

/// A local address is a port, or ends with one after its last colon, or is a URL
/// of which the port is known.
pub proof fn local_ports_are_read(port: u16, host: Seq<char>, url: Option<Option<u16>>)
    ensures
        local_port(decimal_text(port as nat), url) == Ok::<u16, Seq<char>>(port),
        (forall|i: int|
            !#[trigger] stands_at(host + seq![':'] + decimal_text(port as nat), "://"@, i))
            ==> local_port(host + seq![':'] + decimal_text(port as nat), url) == Ok::<
            u16,
            Seq<char>,
        >(port),
        (exists|i: int| #[trigger] stands_at(host, "://"@, i)) ==> local_port(host, url) == (
        match url {
            Some(Some(port)) => Ok::<u16, Seq<char>>(port),
            Some(None) => Err("local address needs a port"@),
            None => Err("local address must look like localhost:3000"@),
        }),
{
    let digits = decimal_text(port as nat);
    numbers_are_written_in_digits(port as nat);
    numbers_are_digits(digits);
    assert(bounded_value(digits, u16::MAX as nat) == Some(port as nat));
    let address = host + seq![':'] + digits;
    lemma_no_number(address, host.len() as int);
    first_place_is_found(address, "://"@);
    if let Some(k) = first_match(address, "://"@) {
        assert(stands_at(address, "://"@, k));
    }
    assert(address.contains(':')) by {
        assert(address[host.len() as int] == ':');
    }
    assert(!digits.contains(':')) by {
        if digits.contains(':') {
            let k = choose|k: int| 0 <= k < digits.len() && digits[k] == ':';
            assert('0' <= digits[k] <= '9');
        }
    }
    pieces_part_at_separators(host, digits, ':');
    pieces_part_at_separators(digits, digits, ':');
    assert(pieces(address, ':').last() == digits);
    first_place_is_found(host, "://"@);
    if exists|i: int| #[trigger] stands_at(host, "://"@, i) {
        let i = choose|i: int| #[trigger] stands_at(host, "://"@, i);
        reveal_strlit("://");
        assert(host.subrange(i, i + 3)[0] == ':');
        lemma_no_number(host, i);
    }
}

/// What has a colon in it is no number.
proof fn lemma_no_number(s: Seq<char>, i: int)
    requires
        0 <= i < s.len(),
        s[i] == ':',
    ensures
        bounded_value(s, u16::MAX as nat) is None,
{
    numbers_are_digits(s);
    assert(!('0' <= s[i] <= '9'));
}

/// A local address that is no port, no URL, and has no colon or no number after
/// its last one, is wrong.
pub proof fn wrong_local_ports_are_told(host: Seq<char>, after: Seq<char>, url: Option<Option<u16>>)
    ensures
        !host.contains(':') && bounded_value(host, 65535) is None ==> local_port(host, url) == Err::<
            u16,
            Seq<char>,
        >("local address must look like localhost:3000"@),
        !after.contains(':') && bounded_value(after, 65535) is None && (forall|i: int|
            !#[trigger] stands_at(host + seq![':'] + after, "://"@, i)) ==> local_port(
            host + seq![':'] + after,
            url,
        ) == Err::<u16, Seq<char>>("local port must be a number"@),
{
    reveal_strlit("://");
    first_place_is_found(host, "://"@);
    if let Some(k) = first_match(host, "://"@) {
        assert(host.subrange(k, k + 3)[0] == ':');
        assert(host[k] == ':');
    }
    let address = host + seq![':'] + after;
    assert(address[host.len() as int] == ':');
    lemma_no_number(address, host.len() as int);
    first_place_is_found(address, "://"@);
    if let Some(k) = first_match(address, "://"@) {
        assert(stands_at(address, "://"@, k));
    }
    pieces_part_at_separators(host, after, ':');
    pieces_part_at_separators(after, after, ':');
}

/// A local address that is a URL stays as it is; a port is one of localhost; and
/// anything else becomes an HTTP URL.
pub proof fn local_urls_are_made(local: Seq<char>, port: u16)
    ensures
        (exists|i: int| #[trigger] stands_at(local, "://"@, i)) ==> address_url(local, port)
            == local,
        (forall|i: int| !#[trigger] stands_at(local, "://"@, i)) ==> {
            let url = address_url(local, port);
            let end = if bounded_value(local, 65535) is Some {
                "localhost:"@ + decimal_text(port as nat)
            } else {
                local
            };
            &&& url.len() == 7 + end.len()
            &&& url.take(7) == "http://"@
            &&& url.skip(7) == end
        },
{
    reveal_strlit("http://");
    reveal_strlit("localhost:");
    reveal_strlit("http://localhost:");
    first_place_is_found(local, "://"@);
    if let Some(k) = first_match(local, "://"@) {
        assert(stands_at(local, "://"@, k));
    } else {
        let url = address_url(local, port);
        assert("http://localhost:"@ =~= "http://"@ + "localhost:"@);
        if bounded_value(local, 65535) is Some {
            let end = "localhost:"@ + decimal_text(port as nat);
            assert(url =~= "http://"@ + end);
            assert(("http://"@ + end).take(7) =~= "http://"@);
            assert(("http://"@ + end).skip(7) =~= end);
        } else {
            assert(url.take(7) =~= "http://"@);
            assert(url.skip(7) =~= local);
        }
    }
}

proof fn lemma_encoded_len(s: Seq<char>)
    ensures
        encode_utf8(s).len() >= s.len(),
    decreases s.len(),
{
    if s.len() > 0 {
        lemma_encode_ascii_scalar(s[0]);
        lemma_encoded_len(s.drop_first());
    }
}

/// The summary is a table: all its lines are equally long, as long as the longest
/// of what they tell needs.
pub proof fn summary_is_even(local_url: Seq<char>, public_url: Seq<char>, password: Seq<char>)
    ensures
        ({
            let a = encode_utf8(local_url).len();
            let b = encode_utf8(public_url).len();
            let c = encode_utf8(password).len();
            let width = if a >= b && a >= c {
                a
            } else if b >= c {
                b
            } else {
                c
            };
            summary(local_url, public_url, Some(password)).len() == 16 + 5 * (width + 18)
        }),
{
    reveal_strlit("\nTunnel ready\n\n");
    reveal_strlit("\n");
    reveal_strlit("| ");
    reveal_strlit(" | ");
    reveal_strlit(" |\n");
    reveal_strlit("+");
    reveal_strlit("+\n");
    reveal_strlit("Local URL");
    reveal_strlit("Public URL");
    reveal_strlit("Password");
    lemma_encoded_len(local_url);
    lemma_encoded_len(public_url);
    lemma_encoded_len(password);
    let width = summary_width(local_url, public_url, Some(password));
    assert(summary_border(width).len() == width + 18);
    assert(summary_row("Local URL"@, local_url, width).len() == width + 18);
    assert(summary_row("Public URL"@, public_url, width).len() == width + 18);
    assert(summary_row("Password"@, password, width).len() == width + 18);
}

/// A line of the summary has a label and a value, each with spaces after it up to
/// its width; the lines above and below have dashes in their place.
pub proof fn summary_lines_are_padded(s: Seq<char>, label: Seq<char>, width: nat, i: int)
    ensures
        s.len() >= width ==> padded(s, width) == s,
        s.len() < width ==> {
            &&& padded(s, width).len() == width
            &&& padded(s, width).take(s.len() as int) == s
            &&& s.len() <= i < width ==> padded(s, width)[i] == ' '
        },
        summary_row(label, s, width) == "| "@ + padded(label, 10) + " | "@ + padded(s, width)
            + " |\n"@,
        summary_border(width).len() == width + 18,
        summary_border(width)[0] == '+' && summary_border(width)[13] == '+'
            && summary_border(width)[(width + 16) as int] == '+',
        0 < i < width + 16 && i != 13 ==> summary_border(width)[i] == '-',
{
    reveal_strlit("+");
    reveal_strlit("+\n");
    if s.len() < width {
        assert(padded(s, width).take(s.len() as int) =~= s);
    }
}

/// The summary has its lines in this order: the local address, the public one, and
/// the password.
pub proof fn summary_lines_are_in_order(
    local_url: Seq<char>,
    public_url: Seq<char>,
    password: Seq<char>,
)
    ensures
        ({
            let width = summary_width(local_url, public_url, Some(password));
            summary(local_url, public_url, Some(password)) == "\nTunnel ready\n\n"@
                + summary_border(width) + summary_row("Local URL"@, local_url, width)
                + summary_row("Public URL"@, public_url, width) + summary_row(
                "Password"@,
                password,
                width,
            ) + summary_border(width) + "\n"@
        }),
        ({
            let width = summary_width(local_url, public_url, None);
            summary(local_url, public_url, None) == "\nTunnel ready\n\n"@ + summary_border(width)
                + summary_row("Local URL"@, local_url, width) + summary_row(
                "Public URL"@,
                public_url,
                width,
            ) + summary_border(width) + "\n"@
        }),
{
    let width = summary_width(local_url, public_url, None);
    assert(summary(local_url, public_url, None) =~= "\nTunnel ready\n\n"@ + summary_border(width)
        + summary_row("Local URL"@, local_url, width) + summary_row(
        "Public URL"@,
        public_url,
        width,
    ) + summary_border(width) + "\n"@);
}

/// What is wrong is told as it is.
pub proof fn results_say_what_is_in_them(port: u16, message: String)
    ensures
        result_in(Ok::<u16, String>(port)) == Ok::<u16, Seq<char>>(port),
        result_in(Err::<u16, String>(message)) == Err::<u16, Seq<char>>(message@),
{
}

/// Options and invocations say what is in them.
pub proof fn arguments_say_what_is_in_them(options: Options, invoked: Invocation)
    ensures
        options@.server == text_in(options.server),
        options@.domain == text_in(options.domain),
        options@.token == text_in(options.token),
        options@.password == text_in(options.password),
        options@.subdomain == text_in(options.subdomain),
        invoked@.local_url == invoked.local_url@,
        invoked@.port == invoked.port,
        invoked@.server_url == invoked.server_url@,
        invoked@.token == text_in(invoked.token),
        invoked@.password == invoked.password@,
        invoked@.subdomain == text_in(invoked.subdomain),
{
}

} // verus!
