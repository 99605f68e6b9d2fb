//! How many requests an address may make in a window of time.

use std::collections::HashMap;
use std::hash::Hash;
use vstd::prelude::*;
use vstd::std_specs::hash::obeys_key_model;

verus! {

/// Where a request comes from.
#[derive(Debug, Clone, Copy, PartialEq, Eq, Structural)]
pub enum ClientIp {
    V4(u32),
    V6(u128),
}

/// The requests that an address made since its window opened.
#[derive(Debug, Clone, Copy, PartialEq, Eq, Structural)]
pub struct WindowState {
    pub count: u32,
    pub window_start: u128,
}

/// What a rate limiter knows.
pub struct LimiterView {
    pub windows: Map<ClientIp, WindowState>,
    pub max_requests: u32,
    pub window_duration: u128,
}

/// The time since `start`; none if `start` is yet to come.
pub open spec fn elapsed(now: u128, start: u128) -> int {
    if now >= start {
        now - start
    } else {
        0
    }
}

/// Whether a window has run out.
pub open spec fn expired(window: WindowState, now: u128, duration: u128) -> bool {
    elapsed(now, window.window_start) >= duration
}

/// The window that a request falls into: that of its address, or a new one.
pub open spec fn current_window(known: Option<WindowState>, now: u128) -> WindowState {
    match known {
        Some(window) => window,
        None => WindowState { count: 0, window_start: now },
    }
}

/// The window of an address after one more request. The count stops at the
/// largest number that it can have.
pub open spec fn next_window(known: Option<WindowState>, now: u128, duration: u128) -> WindowState {
    let window = current_window(known, now);
    if expired(window, now, duration) {
        WindowState { count: 1, window_start: now }
    } else if window.count < u32::MAX {
        WindowState { count: (window.count + 1) as u32, window_start: window.window_start }
    } else {
        window
    }
}

impl LimiterView {
    /// What is known of an address.
    pub open spec fn known(self, ip: ClientIp) -> Option<WindowState> {
        if self.windows.contains_key(ip) {
            Some(self.windows[ip])
        } else {
            None
        }
    }

    /// Whether a request that comes now is allowed: it is the first after a
    /// window ran out, or there were not too many in the window.
    pub open spec fn allows(self, ip: ClientIp, now: u128) -> bool {
        ||| expired(current_window(self.known(ip), now), now, self.window_duration)
        ||| next_window(self.known(ip), now, self.window_duration).count <= self.max_requests
    }

    /// What is known after a request, allowed or not.
    pub open spec fn after(self, ip: ClientIp, now: u128) -> LimiterView {
        LimiterView {
            windows: self.windows.insert(ip, next_window(self.known(ip), now, self.window_duration)),
            ..self
        }
    }

    /// What is known after the windows that ran out were forgotten.
    pub open spec fn cleaned(self, now: u128) -> LimiterView {
        LimiterView {
            windows: self.windows.restrict(
                Set::new(
                    |ip: ClientIp|
                        self.windows.contains_key(ip) && !expired(
                            self.windows[ip],
                            now,
                            self.window_duration,
                        ),
                ),
            ),
            ..self
        }
    }
}

/// Counts requests by address. Times are in nanoseconds from any fixed point.
pub struct RateLimiter {
    v4: HashMap<u32, WindowState>,
    v6: HashMap<u128, WindowState>,
    max_requests: u32,
    window_duration: u128,
}

impl View for RateLimiter {
    type V = LimiterView;

    closed spec fn view(&self) -> LimiterView {
        LimiterView {
            windows: Map::new(
                |ip: ClientIp|
                    match ip {
                        ClientIp::V4(bits) => self.v4@.contains_key(bits),
                        ClientIp::V6(bits) => self.v6@.contains_key(bits),
                    },
                |ip: ClientIp|
                    match ip {
                        ClientIp::V4(bits) => self.v4@[bits],
                        ClientIp::V6(bits) => self.v6@[bits],
                    },
            ),
            max_requests: self.max_requests,
            window_duration: self.window_duration,
        }
    }
}

/// Whether a window has run out.
fn is_expired(window: &WindowState, now: u128, duration: u128) -> (yes: bool)
    ensures
        yes == expired(*window, now, duration),
{
    if now >= window.window_start {
        now - window.window_start >= duration
    } else {
        duration == 0
    }
}

/// Counts one request into a table of windows.
fn count_request<K: Copy + Eq + Hash>(
    windows: &mut HashMap<K, WindowState>,
    key: K,
    now: u128,
    duration: u128,
    max_requests: u32,
) -> (allowed: bool)
    requires
        obeys_key_model::<K>(),
    ensures
        ({
            let known = if old(windows)@.contains_key(key) {
                Some(old(windows)@[key])
            } else {
                None
            };
            &&& final(windows)@ == old(windows)@.insert(key, next_window(known, now, duration))
            &&& allowed == (expired(current_window(known, now), now, duration) || next_window(
                known,
                now,
                duration,
            ).count <= max_requests)
        }),
{
    broadcast use vstd::std_specs::hash::group_hash_axioms;

    let window: WindowState = match windows.get(&key) {
        Some(window) => *window,
        None => WindowState { count: 0, window_start: now },
    };
    if is_expired(&window, now, duration) {
        windows.insert(key, WindowState { count: 1, window_start: now });
        return true;
    }
    let count: u32 = if window.count < u32::MAX {
        window.count + 1
    } else {
        window.count
    };
    windows.insert(key, WindowState { count, window_start: window.window_start });
    count <= max_requests
}

/// Takes the windows that have run out from a table.
fn forget_expired<K: Copy + Eq + Hash>(
    windows: &mut HashMap<K, WindowState>,
    now: u128,
    duration: u128,
)
    requires
        obeys_key_model::<K>(),
    ensures
        forall|key: K| #[trigger]
            final(windows)@.contains_key(key) <==> old(windows)@.contains_key(key) && !expired(
                old(windows)@[key],
                now,
                duration,
            ),
        forall|key: K| #[trigger]
            final(windows)@.contains_key(key) ==> final(windows)@[key] == old(windows)@[key],
{
    broadcast use vstd::std_specs::hash::group_hash_axioms;

    let mut stale: Vec<K> = Vec::new();
    let ghost all = windows@;
    for entry in it: windows.iter()
        invariant
            all == windows@,
            forall|i: int|
                0 <= i < it.index() && expired(*(#[trigger] it.seq()[i]).1, now, duration)
                    ==> stale@.contains(*it.seq()[i].0),
            forall|i: int|
                0 <= i < stale@.len() ==> all.contains_key(#[trigger] stale@[i]) && expired(
                    all[stale@[i]],
                    now,
                    duration,
                ),
    {
        let (key, window) = entry;
        let ghost before = stale@;
        if is_expired(window, now, duration) {
            stale.push(*key);
            assert(stale@.last() == *key);
        }
        assert(forall|k: K| before.contains(k) ==> stale@.contains(k)) by {
            assert forall|k: K| before.contains(k) implies stale@.contains(k) by {
                let j = choose|j: int| 0 <= j < before.len() && before[j] == k;
                assert(stale@[j] == k);
            }
        }
    }
    assert(forall|key: K| all.contains_key(key) && expired(all[key], now, duration)
        ==> stale@.contains(key));
    let mut i: usize = 0;
    while i < stale.len()
        invariant
            obeys_key_model::<K>(),
            i <= stale@.len(),
            forall|key: K| #[trigger]
                windows@.contains_key(key) <==> all.contains_key(key) && !stale@.take(
                    i as int,
                ).contains(key),
            forall|key: K| #[trigger] windows@.contains_key(key) ==> windows@[key] == all[key],
        decreases stale@.len() - i,
    {
        windows.remove(&stale[i]);
        i = i + 1;
        proof {
            let done = stale@.take(i - 1);
            let gone = stale@[i - 1];
            assert(stale@.take(i as int) =~= done.push(gone));
            assert forall|key: K| #[trigger]
                done.push(gone).contains(key) <==> done.contains(key) || key == gone by {
                if done.contains(key) {
                    let j = choose|j: int| 0 <= j < done.len() && done[j] == key;
                    assert(done.push(gone)[j] == key);
                }
                assert(done.push(gone).last() == gone);
            }
        }
    }
    assert(stale@.take(i as int) =~= stale@);
}

impl RateLimiter {
    /// A limiter that allows an address so many requests in a window of that
    /// length.
    pub fn new(max_requests: u32, window_duration: u128) -> (limiter: Self)
        ensures
            limiter@ == (LimiterView {
                windows: Map::empty(),
                max_requests,
                window_duration,
            }),
    {
        broadcast use vstd::std_specs::hash::group_hash_axioms;

        let limiter = RateLimiter {
            v4: HashMap::new(),
            v6: HashMap::new(),
            max_requests,
            window_duration,
        };
        assert(limiter@.windows =~= Map::empty());
        limiter
    }

    /// Counts a request and tells whether it is allowed.
    pub fn check(&mut self, ip: ClientIp, now: u128) -> (allowed: bool)
        ensures
            allowed == old(self)@.allows(ip, now),
            final(self)@ == old(self)@.after(ip, now),
    {
        broadcast use vstd::std_specs::hash::group_hash_axioms;

        let duration: u128 = self.window_duration;
        let max_requests: u32 = self.max_requests;
        let allowed = match ip {
            ClientIp::V4(bits) => count_request(&mut self.v4, bits, now, duration, max_requests),
            ClientIp::V6(bits) => count_request(&mut self.v6, bits, now, duration, max_requests),
        };
        assert(self@.windows =~= old(self)@.after(ip, now).windows);
        allowed
    }

    /// Forgets the addresses whose windows have run out.
    pub fn cleanup(&mut self, now: u128)
        ensures
            final(self)@ == old(self)@.cleaned(now),
    {
        broadcast use vstd::std_specs::hash::group_hash_axioms;

        let duration: u128 = self.window_duration;
        forget_expired(&mut self.v4, now, duration);
        forget_expired(&mut self.v6, now, duration);
        assert(self@.windows =~= old(self)@.cleaned(now).windows);
    }

    /// Whether nothing is known of any address.
    pub fn is_empty(&self) -> (empty: bool)
        ensures
            empty == (self@.windows == Map::<ClientIp, WindowState>::empty()),
    {
        let empty = self.v4.is_empty() && self.v6.is_empty();
        proof {
            if empty {
                assert(self@.windows =~= Map::<ClientIp, WindowState>::empty());
            } else if !self.v4@.is_empty() {
                let bits = choose|bits: u32| self.v4@.dom().contains(bits);
                assert(exists|bits: u32| self.v4@.dom().contains(bits)) by {
                    if forall|bits: u32| !self.v4@.dom().contains(bits) {
                        assert(self.v4@.dom() =~= Set::<u32>::empty());
                    }
                }
                assert(self@.windows.contains_key(ClientIp::V4(bits)));
            } else {
                let bits = choose|bits: u128| self.v6@.dom().contains(bits);
                assert(exists|bits: u128| self.v6@.dom().contains(bits)) by {
                    if forall|bits: u128| !self.v6@.dom().contains(bits) {
                        assert(self.v6@.dom() =~= Set::<u128>::empty());
                    }
                }
                assert(self@.windows.contains_key(ClientIp::V6(bits)));
            }
        }
        empty
    }
}

/// What is known after an address made requests at those times.
pub open spec fn after_all(view: LimiterView, ip: ClientIp, times: Seq<u128>) -> LimiterView
    decreases times.len(),
{
    if times.len() == 0 {
        view
    } else {
        after_all(view, ip, times.drop_last()).after(ip, times.last())
    }
}

/// The requests that an address makes within one window are allowed as long as
/// there are no more than the limit, and refused from then on. The one that opens
/// a window after another has run out is allowed in any case.
pub proof fn quota_per_window(view: LimiterView, ip: ClientIp, times: Seq<u128>)
    requires
        view.windows.contains_key(ip) ==> times[0] - view.windows[ip].window_start
            >= view.window_duration,
        view.window_duration > 0,
        0 < times.len() <= u32::MAX,
        forall|i: int|
            0 <= i < times.len() ==> #[trigger] times[i] - times[0] < view.window_duration,
    ensures
        after_all(view, ip, times.drop_last()).allows(ip, times.last()) <==> times.len()
            <= view.max_requests || (times.len() == 1 && view.windows.contains_key(ip)),
{
    lemma_count(view, ip, times.drop_last(), times[0]);
    assert(times.drop_last().len() > 0 ==> times.drop_last()[0] == times[0]);
    assert(times[times.len() - 1] - times[0] < view.window_duration);
}

proof fn lemma_count(view: LimiterView, ip: ClientIp, times: Seq<u128>, start: u128)
    requires
        view.windows.contains_key(ip) ==> start - view.windows[ip].window_start
            >= view.window_duration,
        view.window_duration > 0,
        times.len() <= u32::MAX,
        times.len() > 0 ==> times[0] == start,
        forall|i: int|
            0 <= i < times.len() ==> #[trigger] times[i] - start < view.window_duration,
    ensures
        after_all(view, ip, times).max_requests == view.max_requests,
        after_all(view, ip, times).window_duration == view.window_duration,
        after_all(view, ip, times).known(ip) == (if times.len() == 0 {
            view.known(ip)
        } else {
            Some(WindowState { count: times.len() as u32, window_start: start })
        }),
    decreases times.len(),
{
    if times.len() > 0 {
        let before = times.drop_last();
        assert(before.len() > 0 ==> before[0] == start);
        assert forall|i: int| 0 <= i < before.len() implies #[trigger] before[i] - start
            < view.window_duration by {
            assert(before[i] == times[i]);
        }
        lemma_count(view, ip, before, start);
        assert(times[times.len() - 1] - start < view.window_duration);
    }
}

/// Every address has a quota of its own: what one does changes nothing for
/// another.
pub proof fn quotas_are_separate(
    view: LimiterView,
    ip: ClientIp,
    other: ClientIp,
    now: u128,
    later: u128,
)
    requires
        ip != other,
    ensures
        view.after(other, now).known(ip) == view.known(ip),
        view.after(other, now).allows(ip, later) == view.allows(ip, later),
{
}

/// What is known after addresses made requests, one after the other.
pub open spec fn replayed(view: LimiterView, requests: Seq<(ClientIp, u128)>) -> LimiterView
    decreases requests.len(),
{
    if requests.len() == 0 {
        view
    } else {
        replayed(view, requests.drop_last()).after(requests.last().0, requests.last().1)
    }
}

/// When one address made its requests.
pub open spec fn own_times(requests: Seq<(ClientIp, u128)>, ip: ClientIp) -> Seq<u128>
    decreases requests.len(),
{
    if requests.len() == 0 {
        Seq::empty()
    } else if requests.last().0 == ip {
        own_times(requests.drop_last(), ip).push(requests.last().1)
    } else {
        own_times(requests.drop_last(), ip)
    }
}

/// However the requests of many addresses are mixed, what is known of one of
/// them, and what it is answered next, rests on its own requests alone.
pub proof fn only_own_requests_count(
    view: LimiterView,
    requests: Seq<(ClientIp, u128)>,
    ip: ClientIp,
    now: u128,
)
    ensures
        replayed(view, requests).known(ip) == after_all(view, ip, own_times(requests, ip)).known(
            ip,
        ),
        replayed(view, requests).allows(ip, now) == after_all(
            view,
            ip,
            own_times(requests, ip),
        ).allows(ip, now),
{
    lemma_replayed(view, requests, ip);
}

proof fn lemma_replayed(view: LimiterView, requests: Seq<(ClientIp, u128)>, ip: ClientIp)
    ensures
        ({
            let all = replayed(view, requests);
            let own = after_all(view, ip, own_times(requests, ip));
            &&& all.known(ip) == own.known(ip)
            &&& all.max_requests == own.max_requests
            &&& all.window_duration == own.window_duration
        }),
    decreases requests.len(),
{
    if requests.len() > 0 {
        let before = requests.drop_last();
        lemma_replayed(view, before, ip);
        if requests.last().0 == ip {
            let times = own_times(before, ip);
            assert(times.push(requests.last().1).drop_last() =~= times);
        }
    }
}

/// Once a window has run out the next request is allowed and opens a new one.
pub proof fn window_reopens(view: LimiterView, ip: ClientIp, now: u128)
    requires
        view.windows.contains_key(ip),
        now - view.windows[ip].window_start >= view.window_duration || view.window_duration == 0,
    ensures
        view.allows(ip, now),
        view.after(ip, now).known(ip) == Some(WindowState { count: 1, window_start: now }),
        view.after(ip, now).windows[ip] == (WindowState { count: 1, window_start: now }),
{
}

/// Whether a request at that time opens a window: the address is new, or its
/// window has run out.
pub open spec fn opens_window(view: LimiterView, ip: ClientIp, now: u128) -> bool {
    view.known(ip) matches Some(window) ==> expired(window, now, view.window_duration)
}

/// The first request of an address opens a window, and so does the first one
/// after its window has run out; any other one is counted in the window that is
/// open. It is allowed if the window had run out, or if no more were counted than
/// may be. Nothing else changes.
pub proof fn requests_are_counted(view: LimiterView, ip: ClientIp, now: u128, other: ClientIp)
    ensures
        ({
            let after = view.after(ip, now);
            let start = view.windows[ip].window_start;
            let count = view.windows[ip].count;
            &&& after.windows.contains_key(ip)
            &&& view.windows.contains_key(ip) ==> view.known(ip) == Some(view.windows[ip])
            &&& !view.windows.contains_key(ip) ==> view.known(ip) is None
            &&& opens_window(view, ip, now) <==> !view.windows.contains_key(ip) || now - start
                >= view.window_duration || view.window_duration == 0
            &&& !view.windows.contains_key(ip) ==> {
                &&& after.windows[ip] == (WindowState { count: 1, window_start: now })
                &&& view.allows(ip, now) <==> view.max_requests >= 1 || view.window_duration == 0
            }
            &&& view.windows.contains_key(ip) && (now - start >= view.window_duration
                || view.window_duration == 0) ==> {
                &&& after.windows[ip] == (WindowState { count: 1, window_start: now })
                &&& view.allows(ip, now)
            }
            &&& view.windows.contains_key(ip) && now - start < view.window_duration
                && view.window_duration > 0 ==> {
                &&& after.windows[ip].window_start == start
                &&& after.windows[ip].count == if count < u32::MAX {
                    count + 1
                } else {
                    count as int
                }
                &&& view.allows(ip, now) <==> after.windows[ip].count <= view.max_requests
            }
            &&& other != ip ==> {
                &&& after.windows.contains_key(other) <==> view.windows.contains_key(other)
                &&& view.windows.contains_key(other) ==> after.windows[other]
                    == view.windows[other]
            }
            &&& after.max_requests == view.max_requests
            &&& after.window_duration == view.window_duration
        }),
{
}

/// Cleaning up forgets the windows that have run out and keeps all others as they
/// are.
pub proof fn only_old_windows_are_forgotten(view: LimiterView, now: u128, ip: ClientIp)
    ensures
        ({
            let after = view.cleaned(now);
            &&& after.windows.contains_key(ip) <==> view.windows.contains_key(ip) && now
                - view.windows[ip].window_start < view.window_duration && view.window_duration > 0
            &&& after.windows.contains_key(ip) ==> after.windows[ip] == view.windows[ip]
            &&& after.max_requests == view.max_requests
            &&& after.window_duration == view.window_duration
        }),
{
}

/// Forgetting windows that have run out changes no later answer and no later
/// count, as long as any request is allowed at all.
pub proof fn cleanup_is_unseen(view: LimiterView, now: u128, ip: ClientIp, later: u128)
    requires
        view.max_requests > 0,
        now <= later,
    ensures
        view.cleaned(now).allows(ip, later) == view.allows(ip, later),
        view.cleaned(now).after(ip, later).known(ip) == view.after(ip, later).known(ip),
{
}

} // verus!
