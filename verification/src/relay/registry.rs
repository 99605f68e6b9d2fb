//! The tunnels that are open, by subdomain, and the requests that wait for an
//! answer through each of them.

use crate::outside::random_below;
use crate::relay::rate_limit::{ClientIp, LimiterView, RateLimiter};
use crate::text::{same_secret, text_in};
use std::collections::HashMap;
use vstd::hash_map::StringHashMap;
use vstd::prelude::*;

verus! {

/// The most requests that may wait for an answer through one tunnel.
pub const MAX_PENDING_PER_TUNNEL: usize = 10_000;

/// The length of a subdomain that the relay makes up.
pub const NAME_LENGTH: usize = 8;

/// How many subdomains the relay can make up.
pub const NAME_COUNT: u64 = 2_821_109_907_456;

/// How many subdomains are drawn at random before the free ones are looked for
/// in order.
pub const RANDOM_DRAWS: u8 = 64;

/// The character for a number below 36: a digit or a small letter.
pub open spec fn name_char(n: int) -> char {
    if n < 10 {
        ('0' as u32 + n) as char
    } else {
        ('a' as u32 + n - 10) as char
    }
}

/// The text that some draws make.
pub open spec fn drawn_name(draws: Seq<u8>) -> Seq<char> {
    draws.map_values(|draw: u8| name_char(draw as int))
}

/// Whether a text looks like a subdomain that the relay made up.
pub open spec fn is_made_up(name: Seq<char>) -> bool {
    &&& name.len() == NAME_LENGTH
    &&& forall|i: int|
        0 <= i < name.len() ==> '0' <= #[trigger] name[i] <= '9' || 'a' <= name[i] <= 'z'
}

/// The lowest digits of a number in base 36.
pub open spec fn numbered_name(n: nat, length: nat) -> Seq<char>
    decreases length,
{
    if length == 0 {
        Seq::empty()
    } else {
        numbered_name(n / 36, (length - 1) as nat).push(name_char((n % 36) as int))
    }
}

/// How many names there are of some length.
pub open spec fn name_count(length: nat) -> nat
    decreases length,
{
    if length == 0 {
        1
    } else {
        36 * name_count((length - 1) as nat)
    }
}

proof fn lemma_name_char(a: int, b: int)
    requires
        0 <= a < 36,
        0 <= b < 36,
    ensures
        name_char(a) == name_char(b) <==> a == b,
        '0' <= name_char(a) <= '9' || 'a' <= name_char(a) <= 'z',
{
}

proof fn lemma_numbered_name(n: nat, length: nat)
    ensures
        numbered_name(n, length).len() == length,
        forall|i: int|
            0 <= i < length ==> '0' <= #[trigger] numbered_name(n, length)[i] <= '9' || 'a'
                <= numbered_name(n, length)[i] <= 'z',
    decreases length,
{
    if length > 0 {
        lemma_numbered_name(n / 36, (length - 1) as nat);
        lemma_name_char((n % 36) as int, 0);
    }
}

proof fn lemma_numbered_name_is_injective(a: nat, b: nat, length: nat)
    requires
        a < name_count(length),
        b < name_count(length),
        numbered_name(a, length) == numbered_name(b, length),
    ensures
        a == b,
    decreases length,
{
    if length > 0 {
        let shorter = (length - 1) as nat;
        let front_a = numbered_name(a / 36, shorter);
        let front_b = numbered_name(b / 36, shorter);
        lemma_name_char((a % 36) as int, (b % 36) as int);
        assert(front_a.push(name_char((a % 36) as int)).last() == front_b.push(
            name_char((b % 36) as int),
        ).last());
        assert(front_a =~= numbered_name(a, length).drop_last());
        assert(front_b =~= numbered_name(b, length).drop_last());
        lemma_numbered_name_is_injective(a / 36, b / 36, shorter);
    }
}

proof fn lemma_name_count()
    ensures
        name_count(NAME_LENGTH as nat) == NAME_COUNT,
{
    reveal_with_fuel(name_count, 9);
}

/// Names are all different, so a set that holds the first `n` of them holds at
/// least `n` texts.
proof fn lemma_taken_names(taken: Set<Seq<char>>, n: nat)
    requires
        taken.finite(),
        n <= name_count(NAME_LENGTH as nat),
        forall|i: nat| i < n ==> taken.contains(#[trigger] numbered_name(i, NAME_LENGTH as nat)),
    ensures
        n <= taken.len(),
    decreases n,
{
    if n > 0 {
        let last = (n - 1) as nat;
        let name = numbered_name(last, NAME_LENGTH as nat);
        let rest = taken.remove(name);
        assert forall|i: nat| i < last implies rest.contains(
            #[trigger] numbered_name(i, NAME_LENGTH as nat),
        ) by {
            if numbered_name(i, NAME_LENGTH as nat) == name {
                lemma_numbered_name_is_injective(i, last, NAME_LENGTH as nat);
            }
        }
        lemma_taken_names(rest, last);
        assert(taken.contains(name));
    }
}

/// Writes the lowest digits of a number in base 36.
fn push_numbered_name(name: &mut String, n: u64, length: usize)
    ensures
        final(name)@ == old(name)@ + numbered_name(n as nat, length as nat),
    decreases length,
{
    if length == 0 {
        assert(name@ =~= old(name)@ + numbered_name(n as nat, 0));
        return;
    }
    push_numbered_name(name, n / 36, length - 1);
    let digit: u8 = (n % 36) as u8;
    name.push(char_for(digit));
    assert(name@ =~= old(name)@ + numbered_name(n as nat, length as nat));
}

fn char_for(draw: u8) -> (c: char)
    requires
        draw < 36,
    ensures
        c == name_char(draw as int),
{
    if draw < 10 {
        (48u8 + draw) as char
    } else {
        (97u8 + (draw - 10)) as char
    }
}

/// Whether all of these are draws of numbers below 36.
pub open spec fn are_draws(draws: Seq<u8>) -> bool {
    forall|i: int| 0 <= i < draws.len() ==> #[trigger] draws[i] < 36
}

/// Draws numbers below 36.
pub(crate) fn random_draws(count: usize) -> (draws: Vec<u8>)
    ensures
        draws@.len() == count,
        are_draws(draws@),
{
    let mut draws: Vec<u8> = Vec::new();
    while draws.len() < count
        invariant
            draws@.len() <= count,
            are_draws(draws@),
        decreases count - draws@.len(),
    {
        draws.push(random_below(36));
    }
    draws
}

/// Makes a subdomain, or a password, from draws of numbers below 36.
pub fn name_from_draws(draws: &[u8]) -> (name: String)
    requires
        are_draws(draws@),
    ensures
        name@ == drawn_name(draws@),
        draws@.len() == NAME_LENGTH ==> is_made_up(name@),
{
    let mut name = String::new();
    let mut i: usize = 0;
    while i < draws.len()
        invariant
            i <= draws@.len(),
            name@ == drawn_name(draws@.take(i as int)),
            are_draws(draws@),
        decreases draws@.len() - i,
    {
        name.push(char_for(draws[i]));
        i = i + 1;
        assert(name@ =~= drawn_name(draws@.take(i as int)));
    }
    assert(draws@.take(i as int) =~= draws@);
    assert forall|i: int| 0 <= i < name@.len() implies '0' <= #[trigger] name@[i] <= '9' || 'a'
        <= name@[i] <= 'z' by {
        lemma_name_char(draws@[i] as int, 0);
    }
    name
}

/// What a registry holds.
#[verifier::reject_recursive_types(C)]
pub struct RegistryView<C> {
    pub domain: Seq<char>,
    pub auth_token: Option<Seq<char>>,
    pub max_tunnels: usize,
    pub tunnels: Map<Seq<char>, C>,
    pub trust_proxy_headers: bool,
    pub max_body_size: usize,
    pub rate_limiter: LimiterView,
}

impl<C> RegistryView<C> {
    /// There are no more tunnels than there may be.
    pub open spec fn wf(self) -> bool {
        self.tunnels.dom().finite() && self.tunnels.len() <= self.max_tunnels
    }

    /// Whether a token opens tunnels here: any does, and none does too, unless
    /// one is asked for.
    pub open spec fn accepts(self, token: Option<Seq<char>>) -> bool {
        match self.auth_token {
            Some(expected) => token == Some(expected),
            None => true,
        }
    }

    /// Whether a tunnel can be added under this subdomain.
    pub open spec fn has_room_for(self, subdomain: Seq<char>) -> bool {
        self.tunnels.len() < self.max_tunnels && !self.tunnels.contains_key(subdomain)
    }

    /// The registry with one tunnel more, if that can be.
    pub open spec fn registered(self, subdomain: Seq<char>, conn: C) -> RegistryView<C> {
        if self.has_room_for(subdomain) {
            RegistryView { tunnels: self.tunnels.insert(subdomain, conn), ..self }
        } else {
            self
        }
    }

    /// The registry without a tunnel.
    pub open spec fn removed(self, subdomain: Seq<char>) -> RegistryView<C> {
        RegistryView { tunnels: self.tunnels.remove(subdomain), ..self }
    }

    /// The registry after a request from an address.
    pub open spec fn counted(self, ip: ClientIp, now: u128) -> RegistryView<C> {
        RegistryView { rate_limiter: self.rate_limiter.after(ip, now), ..self }
    }
}

/// The open tunnels by subdomain, and what the relay was set up with.
#[verifier::reject_recursive_types(C)]
pub struct Registry<C> {
    domain: String,
    auth_token: Option<String>,
    max_tunnels: usize,
    tunnels: StringHashMap<C>,
    pub trust_proxy_headers: bool,
    pub max_body_size: usize,
    pub rate_limiter: RateLimiter,
}

impl<C> View for Registry<C> {
    type V = RegistryView<C>;

    closed spec fn view(&self) -> RegistryView<C> {
        RegistryView {
            domain: self.domain@,
            auth_token: text_in(self.auth_token),
            max_tunnels: self.max_tunnels,
            tunnels: self.tunnels@,
            trust_proxy_headers: self.trust_proxy_headers,
            max_body_size: self.max_body_size,
            rate_limiter: self.rate_limiter@,
        }
    }
}

impl<C> Registry<C> {
    /// A registry without tunnels.
    pub fn new(
        domain: String,
        auth_token: Option<String>,
        max_tunnels: usize,
        max_body_size: usize,
        trust_proxy_headers: bool,
        rate_limiter: RateLimiter,
    ) -> (registry: Self)
        ensures
            registry@ == (RegistryView::<C> {
                domain: domain@,
                auth_token: text_in(auth_token),
                max_tunnels,
                tunnels: Map::empty(),
                trust_proxy_headers,
                max_body_size,
                rate_limiter: rate_limiter@,
            }),
            registry@.wf(),
    {
        Registry {
            domain,
            auth_token,
            max_tunnels,
            tunnels: StringHashMap::new(),
            trust_proxy_headers,
            max_body_size,
            rate_limiter,
        }
    }

    /// Whether a token opens tunnels here. Tokens are compared in constant time.
    pub fn validate_token(&self, token: Option<&str>) -> (valid: bool)
        ensures
            valid == self@.accepts(
                match token {
                    Some(token) => Some(token@),
                    None => None,
                },
            ),
    {
        match &self.auth_token {
            Some(expected) => match token {
                Some(provided) => same_secret(provided, expected.as_str()),
                None => false,
            },
            None => true,
        }
    }

    /// Adds a tunnel, unless there is no room or the subdomain is taken.
    pub fn register(&mut self, subdomain: String, conn: C) -> (registered: bool)
        requires
            old(self)@.wf(),
        ensures
            registered == old(self)@.has_room_for(subdomain@),
            final(self)@ == old(self)@.registered(subdomain@, conn),
            final(self)@.wf(),
    {
        if self.tunnels.len() >= self.max_tunnels {
            return false;
        }
        if self.tunnels.contains_key(subdomain.as_str()) {
            return false;
        }
        self.tunnels.insert(subdomain, conn);
        true
    }

    /// Takes a tunnel away, if it is there.
    pub fn remove(&mut self, subdomain: &str)
        requires
            old(self)@.wf(),
        ensures
            final(self)@ == old(self)@.removed(subdomain@),
            final(self)@.wf(),
    {
        proof {
            let open = self.tunnels@.dom();
            assert(self.tunnels@.remove(subdomain@).dom() =~= open.remove(subdomain@));
        }
        self.tunnels.remove(subdomain);
    }

    /// The tunnel under a subdomain.
    pub fn get(&self, subdomain: &str) -> (conn: Option<&C>)
        ensures
            match conn {
                Some(conn) => self@.tunnels.contains_key(subdomain@) && *conn
                    == self@.tunnels[subdomain@],
                None => !self@.tunnels.contains_key(subdomain@),
            },
    {
        self.tunnels.get(subdomain)
    }

    /// Whether there is a tunnel under a subdomain.
    pub fn is_taken(&self, subdomain: &str) -> (taken: bool)
        ensures
            taken == self@.tunnels.contains_key(subdomain@),
    {
        self.tunnels.contains_key(subdomain)
    }

    /// How many tunnels are open.
    pub fn tunnel_count(&self) -> (count: usize)
        ensures
            count == self@.tunnels.len(),
    {
        self.tunnels.len()
    }

    /// The domain that subdomains are given out under.
    pub fn domain(&self) -> (domain: &str)
        ensures
            domain@ == self@.domain,
    {
        self.domain.as_str()
    }

    /// The most bytes that a body or a frame may have.
    pub fn max_body_size(&self) -> (size: usize)
        ensures
            size == self@.max_body_size,
    {
        self.max_body_size
    }

    /// Counts a request from an address and tells whether it is allowed. One
    /// whose address is not known is always allowed.
    pub fn allow_request(&mut self, ip: Option<ClientIp>, now: u128) -> (allowed: bool)
        ensures
            match ip {
                Some(ip) => {
                    &&& allowed == old(self)@.rate_limiter.allows(ip, now)
                    &&& final(self)@ == old(self)@.counted(ip, now)
                },
                None => allowed && final(self)@ == old(self)@,
            },
    {
        match ip {
            Some(ip) => self.rate_limiter.check(ip, now),
            None => true,
        }
    }

    /// Forgets the addresses that have made no request for a while.
    pub fn forget_addresses(&mut self, now: u128)
        ensures
            final(self)@ == (RegistryView {
                rate_limiter: old(self)@.rate_limiter.cleaned(now),
                ..old(self)@
            }),
    {
        self.rate_limiter.cleanup(now);
    }

    /// Makes up a subdomain that is not taken: eight digits and small letters,
    /// drawn at random. Should all of very many draws be taken, it is the first
    /// free one in order.
    pub fn generate_subdomain(&self) -> (subdomain: String)
        requires
            self@.wf(),
            self@.tunnels.len() < NAME_COUNT,
        ensures
            is_made_up(subdomain@),
            !self@.tunnels.contains_key(subdomain@),
    {
        let mut tries: u8 = 0;
        while tries < RANDOM_DRAWS
            invariant
                tries <= RANDOM_DRAWS,
            decreases RANDOM_DRAWS - tries,
        {
            let draws = random_draws(NAME_LENGTH);
            let name = name_from_draws(draws.as_slice());
            if !self.tunnels.contains_key(name.as_str()) {
                return name;
            }
            tries = tries + 1;
        }
        let mut n: u64 = 0;
        proof {
            lemma_name_count();
        }
        while n < NAME_COUNT
            invariant
                n <= NAME_COUNT,
                forall|i: nat|
                    i < n ==> self@.tunnels.contains_key(
                        #[trigger] numbered_name(i, NAME_LENGTH as nat),
                    ),
            decreases NAME_COUNT - n,
        {
            let mut name = String::new();
            push_numbered_name(&mut name, n, NAME_LENGTH);
            proof {
                assert(name@ =~= numbered_name(n as nat, NAME_LENGTH as nat));
                lemma_numbered_name(n as nat, NAME_LENGTH as nat);
            }
            if !self.tunnels.contains_key(name.as_str()) {
                return name;
            }
            n = n + 1;
        }
        proof {
            lemma_taken_names(self@.tunnels.dom(), NAME_COUNT as nat);
        }
        String::new()
    }
}

/// What a tunnel's connection holds.
#[verifier::reject_recursive_types(R)]
pub struct ConnectionView<R> {
    pub subdomain: Option<Seq<char>>,
    pub password: Option<Seq<char>>,
    pub pending: Map<u32, R>,
    pub next_id: u32,
}

impl<R> ConnectionView<R> {
    /// There are no more requests waiting than there may be.
    pub open spec fn wf(self) -> bool {
        self.pending.dom().finite() && self.pending.len() <= MAX_PENDING_PER_TUNNEL
    }

    /// Whether the tunnel is the one under a subdomain, as far as it says under
    /// which one it is.
    pub open spec fn serves(self, subdomain: Seq<char>) -> bool {
        self.subdomain is None || self.subdomain == Some(subdomain)
    }

    /// Whether no more requests may wait.
    pub open spec fn is_full(self) -> bool {
        self.pending.len() >= MAX_PENDING_PER_TUNNEL
    }

    /// The connection after an ID was given out.
    pub open spec fn id_taken(self) -> ConnectionView<R> {
        ConnectionView { next_id: id_after(self.next_id, 1), ..self }
    }

    /// The connection with one more request waiting, under the next ID.
    pub open spec fn with_waiter(self, waiter: R) -> ConnectionView<R> {
        ConnectionView {
            pending: self.pending.insert(self.next_id, waiter),
            next_id: id_after(self.next_id, 1),
            ..self
        }
    }

    /// The connection with a request no longer waiting.
    pub open spec fn without(self, id: u32) -> ConnectionView<R> {
        ConnectionView { pending: self.pending.remove(id), ..self }
    }

    /// The one who waits for the answer to a request.
    pub open spec fn waiter(self, id: u32) -> Option<R> {
        if self.pending.contains_key(id) {
            Some(self.pending[id])
        } else {
            None
        }
    }

    /// The connection with no request waiting.
    pub open spec fn abandoned(self) -> ConnectionView<R> {
        ConnectionView { pending: Map::empty(), ..self }
    }
}

/// The ID that comes `n` IDs after another one.
pub open spec fn id_after(id: u32, n: nat) -> u32 {
    ((id + n) % 0x1_0000_0000) as u32
}

/// A tunnel's connection: where to write to it (`W`), who waits for answers
/// through it (`R`, by request ID), the password that visitors need, and the
/// subdomain that the tunnel is under, if that is said.
#[verifier::reject_recursive_types(R)]
pub struct TunnelConnection<W, R> {
    pub write_tx: W,
    pub pending: HashMap<u32, R>,
    pub password: Option<String>,
    subdomain: Option<String>,
    next_request_id: u32,
}

impl<W, R> View for TunnelConnection<W, R> {
    type V = ConnectionView<R>;

    closed spec fn view(&self) -> ConnectionView<R> {
        ConnectionView {
            subdomain: text_in(self.subdomain),
            password: text_in(self.password),
            pending: self.pending@,
            next_id: self.next_request_id,
        }
    }
}

impl<W, R> TunnelConnection<W, R> {
    /// Where to write to the tunnel.
    pub closed spec fn writer(&self) -> W {
        self.write_tx
    }

    /// A connection with no request waiting.
    pub fn new(write_tx: W, password: Option<String>) -> (conn: Self)
        ensures
            conn@ == (ConnectionView::<R> {
                subdomain: None,
                password: text_in(password),
                pending: Map::empty(),
                next_id: 1,
            }),
            conn.writer() == write_tx,
            conn@.wf(),
    {
        broadcast use vstd::std_specs::hash::group_hash_axioms;

        TunnelConnection {
            write_tx,
            pending: HashMap::new(),
            password,
            subdomain: None,
            next_request_id: 1,
        }
    }

    /// The same under a subdomain.
    pub fn under(self, subdomain: String) -> (conn: Self)
        ensures
            conn@ == (ConnectionView { subdomain: Some(subdomain@), ..self@ }),
            conn.writer() == self.writer(),
    {
        let mut conn = self;
        conn.subdomain = Some(subdomain);
        conn
    }

    /// The subdomain that the tunnel is under, if that is said.
    pub fn subdomain(&self) -> (subdomain: Option<&str>)
        ensures
            match subdomain {
                Some(subdomain) => self@.subdomain == Some(subdomain@),
                None => self@.subdomain is None,
            },
    {
        match &self.subdomain {
            Some(subdomain) => Some(subdomain.as_str()),
            None => None,
        }
    }

    /// Gives out an ID, and after the last one starts again from zero.
    pub fn next_id(&mut self) -> (id: u32)
        ensures
            id == old(self)@.next_id,
            final(self)@ == old(self)@.id_taken(),
            final(self).writer() == old(self).writer(),
    {
        let id: u32 = self.next_request_id;
        self.next_request_id = if id == u32::MAX {
            0
        } else {
            id + 1
        };
        id
    }

    /// The password that visitors need, if they need one.
    pub fn visitor_password(&self) -> (password: Option<&str>)
        ensures
            match password {
                Some(password) => self@.password == Some(password@),
                None => self@.password is None,
            },
    {
        match &self.password {
            Some(password) => Some(password.as_str()),
            None => None,
        }
    }

    /// Lets a request wait for its answer and gives out its ID, unless too many
    /// are waiting.
    pub fn add_waiter(&mut self, waiter: R) -> (id: Option<u32>)
        requires
            old(self)@.wf(),
        ensures
            match id {
                Some(id) => {
                    &&& !old(self)@.is_full()
                    &&& id == old(self)@.next_id
                    &&& final(self)@ == old(self)@.with_waiter(waiter)
                },
                None => old(self)@.is_full() && final(self)@ == old(self)@,
            },
            final(self)@.wf(),
            final(self).writer() == old(self).writer(),
    {
        broadcast use vstd::std_specs::hash::group_hash_axioms;

        if self.pending.len() >= MAX_PENDING_PER_TUNNEL {
            return None;
        }
        let id: u32 = self.next_id();
        self.pending.insert(id, waiter);
        Some(id)
    }

    /// Takes out the one who waits for the answer to a request.
    pub fn take_waiter(&mut self, id: u32) -> (waiter: Option<R>)
        requires
            old(self)@.wf(),
        ensures
            waiter == old(self)@.waiter(id),
            final(self)@ == old(self)@.without(id),
            final(self)@.wf(),
            final(self).writer() == old(self).writer(),
    {
        broadcast use vstd::std_specs::hash::group_hash_axioms;

        proof {
            let waiting = self.pending@.dom();
            assert(self.pending@.remove(id).dom() =~= waiting.remove(id));
        }
        let waiter = self.pending.remove(&id);
        assert(self@.pending =~= old(self)@.pending.remove(id));
        waiter
    }

    /// Lets no request wait any longer.
    pub fn abandon_all(&mut self)
        ensures
            final(self)@ == old(self)@.abandoned(),
            final(self)@.wf(),
            final(self).writer() == old(self).writer(),
    {
        broadcast use vstd::std_specs::hash::group_hash_axioms;

        self.pending.clear();
    }
}

/// IDs given out in fewer than 2^32 successive calls are all different.
pub proof fn ids_are_distinct(id: u32, a: nat, b: nat)
    requires
        a < b < 0x1_0000_0000,
    ensures
        id_after(id, a) != id_after(id, b),
{
}

/// The ID after `n` IDs is the one that comes `n` after.
pub proof fn ids_count_up(id: u32, n: nat)
    ensures
        id_after(id_after(id, n), 1) == id_after(id, n + 1),
        id_after(id, 0) == id,
{
}

/// A tunnel that was added is found, and the ones that were there before are
/// found as before: no registration takes another's place.
pub proof fn registration_replaces_nothing<C>(
    registry: RegistryView<C>,
    subdomain: Seq<char>,
    conn: C,
    other: Seq<char>,
)
    requires
        registry.wf(),
    ensures
        registry.has_room_for(subdomain) ==> {
            &&& registry.registered(subdomain, conn).tunnels.contains_key(subdomain)
            &&& registry.registered(subdomain, conn).tunnels[subdomain] == conn
            &&& registry.registered(subdomain, conn).removed(subdomain) == registry
        },
        !registry.has_room_for(subdomain) ==> registry.registered(subdomain, conn) == registry,
        registry.tunnels.contains_key(other) ==> {
            &&& registry.registered(subdomain, conn).tunnels.contains_key(other)
            &&& registry.registered(subdomain, conn).tunnels[other] == registry.tunnels[other]
        },
        registry.registered(subdomain, conn).wf(),
{
    if registry.has_room_for(subdomain) {
        assert(registry.registered(subdomain, conn).removed(subdomain).tunnels
            =~= registry.tunnels);
    }
}

/// A tunnel that was taken away is not found, and its subdomain is free again;
/// the others stay.
pub proof fn removal_touches_one_tunnel<C>(
    registry: RegistryView<C>,
    subdomain: Seq<char>,
    other: Seq<char>,
)
    requires
        registry.wf(),
    ensures
        !registry.removed(subdomain).tunnels.contains_key(subdomain),
        registry.tunnels.contains_key(subdomain) ==> registry.removed(subdomain).has_room_for(
            subdomain,
        ),
        other != subdomain && registry.tunnels.contains_key(other) ==> {
            &&& registry.removed(subdomain).tunnels.contains_key(other)
            &&& registry.removed(subdomain).tunnels[other] == registry.tunnels[other]
        },
        registry.removed(subdomain).wf(),
{
    assert(registry.removed(subdomain).tunnels.dom() =~= registry.tunnels.dom().remove(subdomain));
}

/// An answer reaches the one who waits for it, and none of the others.
pub proof fn answers_are_not_mixed_up<R>(conn: ConnectionView<R>, waiter: R, other: u32)
    requires
        conn.wf(),
        !conn.is_full(),
        other != conn.next_id,
    ensures
        conn.with_waiter(waiter).waiter(conn.next_id) == Some(waiter),
        conn.with_waiter(waiter).waiter(other) == conn.waiter(other),
        conn.with_waiter(waiter).without(conn.next_id).waiter(conn.next_id) is None,
        conn.with_waiter(waiter).without(conn.next_id).waiter(other) == conn.waiter(other),
{
}

} // verus!
