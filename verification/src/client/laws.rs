//! What holds of the client as a whole: visitors always need a password, the
//! relay takes it, and the client tells it together with the public address.

use crate::client::args::{
    invocation, padded, said_by_environment, summary, summary_border, summary_row, summary_width,
    with_options, Invocation, InvocationView, OptionsView, PASSWORD_LENGTH,
};
use crate::client::tunnel::{dials_for, Dial};
use crate::proto::Fields;
use crate::relay::session::password_of;
use vstd::prelude::*;

verus! {

/// Visitors need the password that was given, by an option or in the environment;
/// and if none was, one that is made up and not empty.
pub proof fn visitors_need_a_password(
    args: Seq<Seq<char>>,
    vars: Fields,
    url: Option<Option<u16>>,
    draws: Seq<u8>,
    said: OptionsView,
    invoked: InvocationView,
)
    requires
        draws.len() == PASSWORD_LENGTH,
        with_options(said_by_environment(vars), args.skip(1)) == Ok::<OptionsView, Seq<char>>(said),
        invocation(args, vars, url, draws) == Ok::<InvocationView, Seq<char>>(invoked),
    ensures
        said.password matches Some(given) ==> invoked.password == given,
        said.password is None ==> invoked.password.len() == PASSWORD_LENGTH,
{
}

/// The relay takes the client's password, unless it was given and is empty.
pub proof fn relay_takes_the_password(invoked: Invocation, dial: Dial)
    requires
        dials_for(invoked, dial),
        invoked@.password.len() > 0,
    ensures
        password_of(dial.registration) == Some(invoked@.password),
{
}

/// Whether a text has another one in it.
pub open spec fn tells(text: Seq<char>, part: Seq<char>) -> bool {
    exists|before: Seq<char>, after: Seq<char>| text == #[trigger] (before + part + after)
}

proof fn lemma_row_tells(
    before: Seq<char>,
    label: Seq<char>,
    value: Seq<char>,
    width: nat,
    after: Seq<char>,
)
    ensures
        tells(before + summary_row(label, value, width) + after, value),
{
    let start = before + ("| "@ + padded(label, 10) + " | "@);
    let rest = padded(value, width).skip(value.len() as int) + " |\n"@ + after;
    assert(padded(value, width).take(value.len() as int) =~= value);
    assert(before + summary_row(label, value, width) + after =~= start + value + rest);
}

/// What the client says of an open tunnel has the public address and the
/// visitors' password in it.
pub proof fn summary_tells_address_and_password(
    local_url: Seq<char>,
    public_url: Seq<char>,
    password: Seq<char>,
)
    ensures
        tells(summary(local_url, public_url, Some(password)), public_url),
        tells(summary(local_url, public_url, Some(password)), password),
{
    let text = summary(local_url, public_url, Some(password));
    let width = summary_width(local_url, public_url, Some(password));
    let head = "\nTunnel ready\n\n"@ + summary_border(width) + summary_row(
        "Local URL"@,
        local_url,
        width,
    );
    let address = summary_row("Public URL"@, public_url, width);
    let secret = summary_row("Password"@, password, width);
    let foot = summary_border(width) + "\n"@;
    lemma_row_tells(head, "Public URL"@, public_url, width, secret + foot);
    assert(text =~= head + address + (secret + foot));
    lemma_row_tells(head + address, "Password"@, password, width, foot);
    assert(text =~= head + address + secret + foot);
}

} // verus!
