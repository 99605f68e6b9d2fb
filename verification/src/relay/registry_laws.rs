//! What the registry and the connections in it keep.

use crate::relay::rate_limit::ClientIp;
use crate::relay::registry::{
    are_draws, drawn_name, id_after, is_made_up, ConnectionView, RegistryView,
    MAX_PENDING_PER_TUNNEL, NAME_LENGTH,
};
use vstd::prelude::*;

verus! {

/// A tunnel is added if fewer are open than may be and none is under its subdomain;
/// otherwise nothing changes. Nothing but the tunnels ever changes by it.
pub proof fn tunnels_are_added_while_there_is_room<C>(
    registry: RegistryView<C>,
    subdomain: Seq<char>,
    conn: C,
)
    ensures
        ({
            let after = registry.registered(subdomain, conn);
            let room = registry.tunnels.len() < registry.max_tunnels
                && !registry.tunnels.contains_key(subdomain);
            &&& registry.has_room_for(subdomain) <==> room
            &&& room ==> after.tunnels == registry.tunnels.insert(subdomain, conn)
            &&& !room ==> after == registry
            &&& after.domain == registry.domain
            &&& after.auth_token == registry.auth_token
            &&& after.max_tunnels == registry.max_tunnels
            &&& after.trust_proxy_headers == registry.trust_proxy_headers
            &&& after.max_body_size == registry.max_body_size
            &&& after.rate_limiter == registry.rate_limiter
        }),
        registry.wf() <==> registry.tunnels.dom().finite() && registry.tunnels.len()
            <= registry.max_tunnels,
{
}

/// Taking a tunnel away changes nothing but the tunnels, and counting a request
/// nothing but what is known of addresses.
pub proof fn other_things_stay<C>(
    registry: RegistryView<C>,
    subdomain: Seq<char>,
    ip: ClientIp,
    now: u128,
)
    ensures
        registry.removed(subdomain) == (RegistryView {
            tunnels: registry.tunnels.remove(subdomain),
            ..registry
        }),
        registry.counted(ip, now) == (RegistryView {
            rate_limiter: registry.rate_limiter.after(ip, now),
            ..registry
        }),
{
}

/// Without a token to ask for, everyone may open a tunnel; with one, only those
/// may who give that very token.
pub proof fn only_the_token_opens_tunnels<C>(
    registry: RegistryView<C>,
    expected: Seq<char>,
    given: Option<Seq<char>>,
)
    ensures
        registry.auth_token is None ==> registry.accepts(given),
        registry.auth_token == Some(expected) ==> (registry.accepts(given) <==> given == Some(
            expected,
        )),
{
}

/// Ten thousand requests may wait through one tunnel. One that does waits under
/// the next ID; and nothing but who waits, and that ID, changes.
pub proof fn requests_wait_under_the_next_id<R>(conn: ConnectionView<R>, waiter: R, id: u32)
    ensures
        MAX_PENDING_PER_TUNNEL == 10_000,
        conn.is_full() <==> conn.pending.len() >= 10_000,
        conn.wf() <==> conn.pending.dom().finite() && conn.pending.len() <= 10_000,
        ({
            let next = if conn.next_id < u32::MAX {
                (conn.next_id + 1) as u32
            } else {
                0
            };
            &&& conn.id_taken() == (ConnectionView { next_id: next, ..conn })
            &&& conn.with_waiter(waiter) == (ConnectionView {
                pending: conn.pending.insert(conn.next_id, waiter),
                next_id: next,
                ..conn
            })
        }),
        conn.without(id) == (ConnectionView { pending: conn.pending.remove(id), ..conn }),
        conn.pending.contains_key(id) ==> conn.waiter(id) == Some(conn.pending[id]),
        !conn.pending.contains_key(id) ==> conn.waiter(id) is None,
        conn.abandoned() == (ConnectionView { pending: Map::empty(), ..conn }),
{
}

/// IDs count up by one, and after the last one start again from zero.
pub proof fn ids_count_up_by_one(id: u32)
    ensures
        id < u32::MAX ==> id_after(id, 1) == id + 1,
        id_after(u32::MAX, 1) == 0,
{
}

/// A tunnel serves the subdomain that it is said to be under, and no other.
pub proof fn tunnels_serve_one_subdomain<R>(
    conn: ConnectionView<R>,
    own: Seq<char>,
    other: Seq<char>,
)
    ensures
        conn.subdomain == Some(own) ==> (conn.serves(other) <==> other == own),
{
}

/// Draws make digits and small letters, a different one for each number.
pub proof fn draws_make_digits_and_letters(draws: Seq<u8>, i: int)
    requires
        are_draws(draws),
        0 <= i < draws.len(),
    ensures
        drawn_name(draws).len() == draws.len(),
        draws[i] < 36,
        draws[i] < 10 ==> drawn_name(draws)[i] as u32 == 48 + draws[i],
        draws[i] >= 10 ==> drawn_name(draws)[i] as u32 == 87 + draws[i],
{
}

/// Draws are numbers below thirty-six.
pub proof fn draws_are_below_thirty_six(draws: Seq<u8>)
    ensures
        are_draws(draws) <==> forall|i: int| 0 <= i < draws.len() ==> #[trigger] draws[i] < 36,
{
}

/// What the relay makes up is eight digits and small letters long, and all such
/// texts are like what it makes up.
pub proof fn made_up_names_are_eight_long(name: Seq<char>)
    ensures
        NAME_LENGTH == 8,
        is_made_up(name) <==> name.len() == 8 && forall|i: int|
            0 <= i < name.len() ==> '0' <= #[trigger] name[i] <= '9' || 'a' <= name[i] <= 'z',
{
}

} // verus!
