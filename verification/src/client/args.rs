//! The command line of the client, and what it prints.

use crate::environment::{env_var, lookup, value_of, value_or};
use crate::outside::{parse_url_port, url_port};
use crate::proto::{fields, Fields};
use crate::relay::registry::{are_draws, drawn_name, name_from_draws, random_draws};
use crate::seqs;
use crate::seqs::{first_match, pieces};
use crate::text::{
    bounded_value, chars_of, decimal_text, parse_decimal, push_decimal, same_text, split_text,
    text_in, texts,
};
use vstd::prelude::*;
use vstd::slice::slice_subrange;
use vstd::utf8::encode_utf8;

verus! {

/// How the client is used.
pub const USAGE: &'static str =
    "usage: peek <local-address> [options]\n\nexample:\n  peek localhost:3000 --domain example.com --token change-me\n\noptions:\n  --server <url>        full WebSocket URL, like wss://example.com/tunnel\n  --domain <domain>     hosted peek domain, like example.com\n  --token <token>       server token used to create a tunnel\n  --password <password> require this password for visitors\n  --subdomain <name>    public URL name, like https://name.example.com\n\nenvironment:\n  PEEK_SERVER     full WebSocket URL\n  PEEK_DOMAIN     hosted peek domain\n  PEEK_TOKEN      server token used to create a tunnel\n  PEEK_AUTH_TOKEN same as PEEK_TOKEN\n  PEEK_PASSWORD   require this password for visitors\n";

/// Whether a text is a URL rather than a port or a host with a port.
pub open spec fn has_scheme(local: Seq<char>) -> bool {
    first_match(local, "://"@) is Some
}

/// The port that a local address names, given what it is as a URL: the address
/// is a port, ends with one, or is a URL that names one or whose scheme is known
/// for one.
pub open spec fn local_port(local: Seq<char>, url: Option<Option<u16>>) -> Result<u16, Seq<char>> {
    match bounded_value(local, u16::MAX as nat) {
        Some(port) => Ok(port as u16),
        None => if !has_scheme(local) {
            if !local.contains(':') {
                Err("local address must look like localhost:3000"@)
            } else {
                match bounded_value(pieces(local, ':').last(), u16::MAX as nat) {
                    Some(port) => Ok(port as u16),
                    None => Err("local port must be a number"@),
                }
            }
        } else {
            match url {
                Some(Some(port)) => Ok(port),
                Some(None) => Err("local address needs a port"@),
                None => Err("local address must look like localhost:3000"@),
            }
        },
    }
}

/// What a result holds that is something or says what is wrong.
pub open spec fn result_in<T>(result: Result<T, String>) -> Result<T, Seq<char>> {
    match result {
        Ok(value) => Ok(value),
        Err(message) => Err(message@),
    }
}

fn parse_port(s: &str) -> (port: Option<u16>)
    ensures
        match port {
            Some(port) => bounded_value(s@, u16::MAX as nat) == Some(port as nat),
            None => bounded_value(s@, u16::MAX as nat) is None,
        },
{
    match parse_decimal(s, u16::MAX as u64) {
        Some(port) => Some(port as u16),
        None => None,
    }
}

fn names_scheme(local: &str) -> (yes: bool)
    ensures
        yes == has_scheme(local@),
{
    let local = chars_of(local);
    let mark = chars_of("://");
    seqs::find(local.as_slice(), mark.as_slice()).is_some()
}

proof fn lemma_pieces_len(s: Seq<char>, sep: char)
    ensures
        pieces(s, sep).len() > 1 <==> s.contains(sep),
        pieces(s, sep).len() > 0,
    decreases s.len(),
{
    seqs::lemma_first_index(s, sep);
    let i = seqs::first_index(s, sep);
    if i < s.len() {
        lemma_pieces_len(s.skip(i + 1), sep);
    }
}

/// Finds the port that a local address names, given what it is as a URL.
pub fn port_of_address(local: &str, url: Option<Option<u16>>) -> (port: Result<u16, String>)
    ensures
        result_in(port) == local_port(local@, url),
{
    if let Some(port) = parse_port(local) {
        return Ok(port);
    }
    if !names_scheme(local) {
        let parts = split_text(local, ':');
        proof {
            lemma_pieces_len(local@, ':');
            assert(texts(parts@).len() == parts@.len());
            assert(texts(parts@).last() == parts@.last()@);
        }
        if parts.len() <= 1 {
            return Err("local address must look like localhost:3000".to_owned());
        }
        return match parse_port(parts[parts.len() - 1].as_str()) {
            Some(port) => Ok(port),
            None => Err("local port must be a number".to_owned()),
        };
    }
    match url {
        Some(Some(port)) => Ok(port),
        Some(None) => Err("local address needs a port".to_owned()),
        None => Err("local address must look like localhost:3000".to_owned()),
    }
}

/// Finds the port that a local address names.
pub fn parse_local_port(local: &str) -> (port: Result<u16, String>)
    ensures
        result_in(port) == local_port(local@, url_port(local@)),
{
    let url = match parse_url_port(local) {
        Ok(port) => Some(port),
        Err(_) => None,
    };
    port_of_address(local, url)
}

/// A local address as a URL.
pub open spec fn address_url(local: Seq<char>, port: u16) -> Seq<char> {
    if has_scheme(local) {
        local
    } else if bounded_value(local, u16::MAX as nat) is Some {
        "http://localhost:"@ + decimal_text(port as nat)
    } else {
        "http://"@ + local
    }
}

/// Makes a URL of a local address.
pub fn local_url(local: &str, port: u16) -> (url: String)
    ensures
        url@ == address_url(local@, port),
{
    if names_scheme(local) {
        return local.to_owned();
    }
    if parse_port(local).is_some() {
        let mut url = "http://localhost:".to_owned();
        push_decimal(&mut url, port as u64);
        return url;
    }
    let mut url = "http://".to_owned();
    url.append(local);
    url
}

/// What is said about the relay and the tunnel.
#[derive(Debug)]
pub struct Options {
    pub server: Option<String>,
    pub domain: Option<String>,
    pub token: Option<String>,
    pub password: Option<String>,
    pub subdomain: Option<String>,
}

/// What is said about the relay and the tunnel.
pub struct OptionsView {
    pub server: Option<Seq<char>>,
    pub domain: Option<Seq<char>>,
    pub token: Option<Seq<char>>,
    pub password: Option<Seq<char>>,
    pub subdomain: Option<Seq<char>>,
}

impl View for Options {
    type V = OptionsView;

    open spec fn view(&self) -> OptionsView {
        OptionsView {
            server: text_in(self.server),
            domain: text_in(self.domain),
            token: text_in(self.token),
            password: text_in(self.password),
            subdomain: text_in(self.subdomain),
        }
    }
}

impl OptionsView {
    /// The same with one option set; nothing if there is no such option.
    pub open spec fn set(self, option: Seq<char>, value: Seq<char>) -> Option<OptionsView> {
        if option == "--server"@ {
            Some(OptionsView { server: Some(value), ..self })
        } else if option == "--domain"@ {
            Some(OptionsView { domain: Some(value), ..self })
        } else if option == "--token"@ {
            Some(OptionsView { token: Some(value), ..self })
        } else if option == "--password"@ {
            Some(OptionsView { password: Some(value), ..self })
        } else if option == "--subdomain"@ {
            Some(OptionsView { subdomain: Some(value), ..self })
        } else {
            None
        }
    }
}

/// Whether there is such an option.
pub open spec fn is_option(option: Seq<char>) -> bool {
    ||| option == "--server"@
    ||| option == "--domain"@
    ||| option == "--token"@
    ||| option == "--password"@
    ||| option == "--subdomain"@
}

/// The value that follows an option: the next argument, unless that is an option
/// itself.
pub open spec fn option_value(rest: Seq<Seq<char>>, option: Seq<char>) -> Result<
    Seq<char>,
    Seq<char>,
> {
    if rest.len() > 0 && !("--"@).is_prefix_of(rest[0]) {
        Ok(rest[0])
    } else {
        Err(option + " needs a value"@)
    }
}

/// What is said once the options that are left are taken in, from the first to
/// the last.
pub open spec fn with_options(said: OptionsView, args: Seq<Seq<char>>) -> Result<
    OptionsView,
    Seq<char>,
>
    decreases args.len(),
{
    if args.len() == 0 {
        Ok(said)
    } else if !is_option(args[0]) {
        Err("unknown option: "@ + args[0])
    } else {
        match option_value(args.skip(1), args[0]) {
            Ok(value) => with_options(said.set(args[0], value)->0, args.skip(2)),
            Err(message) => Err(message),
        }
    }
}

/// What the environment says.
pub open spec fn said_by_environment(vars: Fields) -> OptionsView {
    OptionsView {
        server: value_of(vars, "PEEK_SERVER"@),
        domain: value_of(vars, "PEEK_DOMAIN"@),
        token: value_or(vars, "PEEK_TOKEN"@, "PEEK_AUTH_TOKEN"@),
        password: value_of(vars, "PEEK_PASSWORD"@),
        subdomain: None,
    }
}

/// The value that follows an option.
pub fn next_option_value(args: &[String], index: usize, option: &str) -> (value: Result<
    String,
    String,
>)
    requires
        index <= args@.len(),
    ensures
        match value {
            Ok(value) => option_value(texts(args@).skip(index as int), option@) == Ok::<
                Seq<char>,
                Seq<char>,
            >(value@),
            Err(message) => option_value(texts(args@).skip(index as int), option@) == Err::<
                Seq<char>,
                Seq<char>,
            >(message@),
        },
{
    let ghost rest = texts(args@).skip(index as int);
    if index < args.len() {
        assert(rest[0] == args@[index as int]@);
        let chars = chars_of(args[index].as_str());
        let dashes = chars_of("--");
        if !seqs::starts_with(chars.as_slice(), dashes.as_slice()) {
            return Ok(args[index].as_str().to_owned());
        }
    }
    let mut message = option.to_owned();
    message.append(" needs a value");
    Err(message)
}

/// Takes in options.
fn read_options(said: Options, args: &[String]) -> (options: Result<Options, String>)
    ensures
        match options {
            Ok(options) => with_options(said@, texts(args@)) == Ok::<OptionsView, Seq<char>>(
                options@,
            ),
            Err(message) => with_options(said@, texts(args@)) == Err::<OptionsView, Seq<char>>(
                message@,
            ),
        },
{
    let ghost all = texts(args@);
    let mut options = said;
    let mut i: usize = 0;
    assert(all.skip(0) =~= all);
    while i < args.len()
        invariant
            i <= args@.len(),
            all == texts(args@),
            with_options(said@, all) == with_options(options@, all.skip(i as int)),
        decreases args@.len() - i,
    {
        let ghost left = all.skip(i as int);
        let ghost before = options@;
        let arg = args[i].as_str();
        assert(left[0] == arg@);
        assert(left.skip(1) =~= all.skip(i + 1));
        let server = same_text(arg, "--server");
        let domain = same_text(arg, "--domain");
        let token = same_text(arg, "--token");
        let password = same_text(arg, "--password");
        let subdomain = same_text(arg, "--subdomain");
        if !server && !domain && !token && !password && !subdomain {
            let mut message = "unknown option: ".to_owned();
            message.append(arg);
            return Err(message);
        }
        let value = match next_option_value(args, i + 1, arg) {
            Ok(value) => value,
            Err(message) => {
                return Err(message);
            },
        };
        let ghost given = value@;
        if server {
            options.server = Some(value);
        } else if domain {
            options.domain = Some(value);
        } else if token {
            options.token = Some(value);
        } else if password {
            options.password = Some(value);
        } else {
            options.subdomain = Some(value);
        }
        proof {
            reveal_strlit("--server");
            reveal_strlit("--domain");
            reveal_strlit("--token");
            reveal_strlit("--password");
            reveal_strlit("--subdomain");
            assert(before.set(arg@, given) == Some(options@));
            assert(left.skip(2) =~= all.skip(i + 2));
        }
        i = i + 2;
    }
    assert(all.skip(i as int) =~= Seq::empty());
    Ok(options)
}

/// What the client is to do.
#[derive(Debug)]
pub enum Command {
    /// Tell how it is used.
    Help,
    /// Open a tunnel.
    Open(Invocation),
}

/// What the client needs to open a tunnel.
#[derive(Debug)]
pub struct Invocation {
    pub local_url: String,
    pub port: u16,
    pub server_url: String,
    pub token: Option<String>,
    pub password: String,
    pub subdomain: Option<String>,
}

/// What the client needs to open a tunnel.
pub struct InvocationView {
    pub local_url: Seq<char>,
    pub port: u16,
    pub server_url: Seq<char>,
    pub token: Option<Seq<char>>,
    pub password: Seq<char>,
    pub subdomain: Option<Seq<char>>,
}

impl View for Invocation {
    type V = InvocationView;

    open spec fn view(&self) -> InvocationView {
        InvocationView {
            local_url: self.local_url@,
            port: self.port,
            server_url: self.server_url@,
            token: text_in(self.token),
            password: self.password@,
            subdomain: text_in(self.subdomain),
        }
    }
}

/// How many characters a password has that the client makes up.
pub const PASSWORD_LENGTH: usize = 16;

/// The password that visitors need: the one that was given, or the one that some
/// draws make.
pub open spec fn password_for(given: Option<Seq<char>>, draws: Seq<u8>) -> Seq<char> {
    match given {
        Some(given) => given,
        None => drawn_name(draws),
    }
}

/// Settles on the password that visitors need: the one that was given, or the one
/// that some draws make.
pub fn visitor_password(given: Option<String>, draws: &[u8]) -> (password: String)
    requires
        forall|i: int| 0 <= i < draws@.len() ==> #[trigger] draws@[i] < 36,
    ensures
        given matches Some(said) ==> password@ == said@,
        given is None ==> password@ == drawn_name(draws@),
{
    match given {
        Some(given) => given,
        None => name_from_draws(draws),
    }
}

/// The address of the relay: the one that was given, or that of a domain.
pub open spec fn relay_address(said: OptionsView) -> Option<Seq<char>> {
    match said.server {
        Some(server) => Some(server),
        None => match said.domain {
            Some(domain) => Some("wss://"@ + domain + "/tunnel"@),
            None => None,
        },
    }
}

/// Whether the arguments ask how the client is used.
pub open spec fn asks_for_help(args: Seq<Seq<char>>) -> bool {
    args.contains("--help"@) || args.contains("-h"@)
}

/// What the client is told to do by its arguments and the environment, given
/// what the local address is as a URL and draws for a password. What is wrong
/// first is said first: the local address, then the options, then that there is
/// no relay.
pub open spec fn invocation(
    args: Seq<Seq<char>>,
    vars: Fields,
    url: Option<Option<u16>>,
    draws: Seq<u8>,
) -> Result<InvocationView, Seq<char>> {
    if args.len() == 0 {
        Err("missing local address"@)
    } else {
        match local_port(args[0], url) {
            Err(message) => Err(message),
            Ok(port) => match with_options(said_by_environment(vars), args.skip(1)) {
                Err(message) => Err(message),
                Ok(said) => match relay_address(said) {
                    None => Err("missing --server, --domain, PEEK_SERVER, or PEEK_DOMAIN"@),
                    Some(server_url) => Ok(
                        InvocationView {
                            local_url: address_url(args[0], port),
                            port,
                            server_url,
                            token: said.token,
                            password: password_for(said.password, draws),
                            subdomain: said.subdomain,
                        },
                    ),
                },
            },
        }
    }
}

fn wants_help(args: &[String]) -> (yes: bool)
    ensures
        yes == asks_for_help(texts(args@)),
{
    let ghost all = texts(args@);
    let mut i: usize = 0;
    while i < args.len()
        invariant
            i <= args@.len(),
            all == texts(args@),
            forall|j: int| 0 <= j < i ==> #[trigger] all[j] != "--help"@ && all[j] != "-h"@,
        decreases args@.len() - i,
    {
        let arg = args[i].as_str();
        assert(all[i as int] == arg@);
        if same_text(arg, "--help") || same_text(arg, "-h") {
            return true;
        }
        i = i + 1;
    }
    false
}

/// Understands the arguments and the environment, given what the local address
/// is as a URL and draws for a password.
pub fn understand(
    args: &[String],
    vars: &[(String, String)],
    url: Option<Option<u16>>,
    draws: &[u8],
) -> (invoked: Result<Invocation, String>)
    requires
        are_draws(draws@),
    ensures
        match invoked {
            Ok(invoked) => invocation(texts(args@), fields(vars@), url, draws@) == Ok::<
                InvocationView,
                Seq<char>,
            >(invoked@),
            Err(message) => invocation(texts(args@), fields(vars@), url, draws@) == Err::<
                InvocationView,
                Seq<char>,
            >(message@),
        },
{
    if args.len() == 0 {
        return Err("missing local address".to_owned());
    }
    let local = args[0].as_str();
    assert(texts(args@)[0] == local@);
    let port: u16 = match port_of_address(local, url) {
        Ok(port) => port,
        Err(message) => {
            return Err(message);
        },
    };
    let local_url = local_url(local, port);
    let said = Options {
        server: lookup(vars, "PEEK_SERVER"),
        domain: lookup(vars, "PEEK_DOMAIN"),
        token: env_var(vars, "PEEK_TOKEN", "PEEK_AUTH_TOKEN"),
        password: lookup(vars, "PEEK_PASSWORD"),
        subdomain: None,
    };
    let rest = slice_subrange(args, 1, args.len());
    assert(texts(rest@) =~= texts(args@).skip(1));
    let said = match read_options(said, rest) {
        Ok(said) => said,
        Err(message) => {
            return Err(message);
        },
    };
    let server_url = match said.server {
        Some(server) => server,
        None => match said.domain {
            Some(domain) => {
                let mut url = "wss://".to_owned();
                url.append(domain.as_str());
                url.append("/tunnel");
                url
            },
            None => {
                return Err("missing --server, --domain, PEEK_SERVER, or PEEK_DOMAIN".to_owned());
            },
        },
    };
    Ok(
        Invocation {
            local_url,
            port,
            server_url,
            token: said.token,
            password: visitor_password(said.password, draws),
            subdomain: said.subdomain,
        },
    )
}

/// Whether this is what the client is to do, given what the local address is as
/// a URL and draws for a password.
pub open spec fn is_told(
    command: Result<Command, String>,
    args: Seq<Seq<char>>,
    vars: Fields,
    url: Option<Option<u16>>,
    draws: Seq<u8>,
) -> bool {
    if asks_for_help(args) {
        command matches Ok(command) && command is Help
    } else {
        match command {
            Ok(Command::Open(invoked)) => invocation(args, vars, url, draws) == Ok::<
                InvocationView,
                Seq<char>,
            >(invoked@),
            Ok(Command::Help) => false,
            Err(message) => invocation(args, vars, url, draws) == Err::<InvocationView, Seq<char>>(
                message@,
            ),
        }
    }
}

/// Decides what the client is to do. Where no password is given for visitors, one
/// is made up.
pub fn parse_args(args: &[String], vars: &[(String, String)]) -> (command: Result<Command, String>)
    ensures
        exists|draws: Seq<u8>|
            draws.len() == PASSWORD_LENGTH && are_draws(draws) && #[trigger] is_told(
                command,
                texts(args@),
                fields(vars@),
                url_port(texts(args@)[0]),
                draws,
            ),
{
    let draws = random_draws(PASSWORD_LENGTH);
    let mut url: Option<Option<u16>> = None;
    if args.len() > 0 {
        assert(texts(args@)[0] == args@[0]@);
        if let Ok(port) = parse_url_port(args[0].as_str()) {
            url = Some(port);
        }
    }
    let command = if wants_help(args) {
        Ok(Command::Help)
    } else {
        match understand(args, vars, url, draws.as_slice()) {
            Ok(invoked) => Ok(Command::Open(invoked)),
            Err(message) => Err(message),
        }
    };
    assert(is_told(
        command,
        texts(args@),
        fields(vars@),
        url_port(texts(args@)[0]),
        draws@,
    ));
    command
}

/// So many copies of a character.
pub open spec fn repeated(c: char, count: nat) -> Seq<char> {
    Seq::new(count, |i: int| c)
}

/// A text with spaces after it up to a width.
pub open spec fn padded(s: Seq<char>, width: nat) -> Seq<char> {
    if s.len() < width {
        s + repeated(' ', (width - s.len()) as nat)
    } else {
        s
    }
}

/// One line of the summary.
pub open spec fn summary_row(label: Seq<char>, value: Seq<char>, width: nat) -> Seq<char> {
    "| "@ + padded(label, 10) + " | "@ + padded(value, width) + " |\n"@
}

/// The line above and below the summary.
pub open spec fn summary_border(width: nat) -> Seq<char> {
    "+"@ + repeated('-', 12) + "+"@ + repeated('-', width + 2) + "+\n"@
}

/// The larger of two numbers.
pub open spec fn larger(a: nat, b: nat) -> nat {
    if a >= b {
        a
    } else {
        b
    }
}

/// The width of the summary's values: that of the longest, in bytes.
pub open spec fn summary_width(
    local_url: Seq<char>,
    public_url: Seq<char>,
    password: Option<Seq<char>>,
) -> nat {
    let urls = larger(encode_utf8(local_url).len(), encode_utf8(public_url).len());
    match password {
        Some(password) => larger(urls, encode_utf8(password).len()),
        None => urls,
    }
}

/// The summary of an open tunnel: where it leads from and to, and the password
/// that visitors need.
pub open spec fn summary(
    local_url: Seq<char>,
    public_url: Seq<char>,
    password: Option<Seq<char>>,
) -> Seq<char> {
    let width = summary_width(local_url, public_url, password);
    "\nTunnel ready\n\n"@ + summary_border(width) + summary_row("Local URL"@, local_url, width)
        + summary_row("Public URL"@, public_url, width) + (match password {
        Some(password) => summary_row("Password"@, password, width),
        None => Seq::empty(),
    }) + summary_border(width) + "\n"@
}

fn push_repeated(s: &mut String, c: char, count: usize)
    ensures
        final(s)@ == old(s)@ + repeated(c, count as nat),
{
    let mut i: usize = 0;
    assert(s@ =~= old(s)@ + repeated(c, 0));
    while i < count
        invariant
            i <= count,
            s@ == old(s)@ + repeated(c, i as nat),
        decreases count - i,
    {
        s.push(c);
        i = i + 1;
        assert(s@ =~= old(s)@ + repeated(c, i as nat));
    }
}

fn push_padded(s: &mut String, value: &str, width: usize)
    ensures
        final(s)@ == old(s)@ + padded(value@, width as nat),
{
    s.append(value);
    let length: usize = chars_of(value).len();
    if length < width {
        push_repeated(s, ' ', width - length);
    }
    assert(s@ =~= old(s)@ + padded(value@, width as nat));
}

fn push_row(s: &mut String, label: &str, value: &str, width: usize)
    ensures
        final(s)@ == old(s)@ + summary_row(label@, value@, width as nat),
{
    s.append("| ");
    push_padded(s, label, 10);
    s.append(" | ");
    push_padded(s, value, width);
    s.append(" |\n");
    assert(s@ =~= old(s)@ + summary_row(label@, value@, width as nat));
}

fn push_border(s: &mut String, width: usize)
    requires
        width <= usize::MAX - 2,
    ensures
        final(s)@ == old(s)@ + summary_border(width as nat),
{
    s.append("+");
    push_repeated(s, '-', 12);
    s.append("+");
    push_repeated(s, '-', width + 2);
    s.append("+\n");
    assert(s@ =~= old(s)@ + summary_border(width as nat));
}

/// Tells that the tunnel is open that an invocation asked for, and where.
pub fn announce(invoked: &Invocation, public_url: &str) -> (text: String)
    requires
        summary_width(invoked@.local_url, public_url@, Some(invoked@.password)) <= usize::MAX - 2,
    ensures
        text@ == summary(invoked@.local_url, public_url@, Some(invoked@.password)),
{
    tunnel_summary(invoked.local_url.as_str(), public_url, Some(invoked.password.as_str()))
}

/// Writes the summary of an open tunnel.
pub fn tunnel_summary(local_url: &str, public_url: &str, password: Option<&str>) -> (text: String)
    requires
        summary_width(
            local_url@,
            public_url@,
            match password {
                Some(password) => Some(password@),
                None => None,
            },
        ) <= usize::MAX - 2,
    ensures
        text@ == summary(
            local_url@,
            public_url@,
            match password {
                Some(password) => Some(password@),
                None => None,
            },
        ),
{
    let mut width: usize = local_url.as_bytes().len();
    if public_url.as_bytes().len() > width {
        width = public_url.as_bytes().len();
    }
    if let Some(password) = password {
        if password.as_bytes().len() > width {
            width = password.as_bytes().len();
        }
    }
    let mut text = "\nTunnel ready\n\n".to_owned();
    push_border(&mut text, width);
    push_row(&mut text, "Local URL", local_url, width);
    push_row(&mut text, "Public URL", public_url, width);
    if let Some(password) = password {
        push_row(&mut text, "Password", password, width);
    }
    push_border(&mut text, width);
    text.append("\n");
    assert(text@ =~= summary(
        local_url@,
        public_url@,
        match password {
            Some(password) => Some(password@),
            None => None,
        },
    ));
    text
}

} // verus!
