//! A fixed-window request limiter, one window per client.
//!
//! The limiter does not read a clock: the caller hands in the time of each
//! request, in nanoseconds since an origin of its choice.

use crate::text::text_eq;
use vstd::prelude::*;
use vstd::string::*;

verus! {

/// The window of one client: how many requests it was granted since the
/// window started.
pub struct Window {
    pub count: u32,
    pub started: u128,
}

/// The window of one client, as the limiter keeps it.
struct ClientWindow {
    client: String,
    count: u32,
    started: u128,
}

/// Nanoseconds in a second.
pub const NANOS_PER_SECOND: u128 = 1_000_000_000;

/// The time that has passed since `started`; none if `now` lies before it.
pub open spec fn elapsed(started: u128, now: u128) -> int {
    if now >= started {
        now - started
    } else {
        0
    }
}

/// The window that a request at `now` finds for `client`: the one on
/// record, or a fresh one that starts now.
pub open spec fn window_found(
    windows: Map<Seq<char>, Window>,
    client: Seq<char>,
    now: u128,
) -> Window {
    if windows.contains_key(client) {
        windows[client]
    } else {
        Window { count: 0, started: now }
    }
}

/// Whether a request at `now` is granted, given the window it finds: yes if
/// the window has run out, or if it has room left.
pub open spec fn grants(found: Window, limit: u32, window: u128, now: u128) -> bool {
    elapsed(found.started, now) > window || found.count < limit
}

/// The window after a request at `now`: a window that has run out starts
/// anew with this request as its first; one with room left counts the
/// request; a full one stays as it is.
pub open spec fn window_after(found: Window, limit: u32, window: u128, now: u128) -> Window {
    if elapsed(found.started, now) > window {
        Window { count: 1, started: now }
    } else if found.count < limit {
        Window { count: (found.count + 1) as u32, started: found.started }
    } else {
        found
    }
}

/// Mathematical model of a [`RateLimiter`].
pub struct RateLimiterView {
    /// The window of every client that has asked so far.
    pub windows: Map<Seq<char>, Window>,
    /// Requests granted per window.
    pub limit: u32,
    /// Length of a window in nanoseconds.
    pub window: u128,
}

/// Limits the requests of each client to a number per window of time.
pub struct RateLimiter {
    clients: Vec<ClientWindow>,
    limit: u32,
    window: u128,
}

/// Whether `clients` holds a window for `client`.
spec fn known(clients: Seq<ClientWindow>, client: Seq<char>) -> bool {
    exists|i: int| 0 <= i < clients.len() && (#[trigger] clients[i]).client@ == client
}

/// The place of a window for `client` in `clients`.
spec fn place_of(clients: Seq<ClientWindow>, client: Seq<char>) -> int {
    choose|i: int| 0 <= i < clients.len() && (#[trigger] clients[i]).client@ == client
}

/// The windows that `clients` holds, by client.
spec fn windows_of(clients: Seq<ClientWindow>) -> Map<Seq<char>, Window> {
    Map::new(
        |client: Seq<char>| known(clients, client),
        |client: Seq<char>|
            Window {
                count: clients[place_of(clients, client)].count,
                started: clients[place_of(clients, client)].started,
            },
    )
}

/// Whether no client has two windows.
spec fn one_window_each(clients: Seq<ClientWindow>) -> bool {
    forall|i: int, j: int|
        0 <= i < j < clients.len() ==> (#[trigger] clients[i]).client@ != (
        #[trigger] clients[j]).client@
}

impl View for RateLimiter {
    type V = RateLimiterView;

    closed spec fn view(&self) -> RateLimiterView {
        RateLimiterView {
            windows: windows_of(self.clients@),
            limit: self.limit,
            window: self.window,
        }
    }
}

impl RateLimiter {
    #[verifier::type_invariant]
    spec fn well_formed(self) -> bool {
        one_window_each(self.clients@)
    }

    /// A limiter that grants each client `limit` requests per window of
    /// `window_secs` seconds. No client has a window yet.
    pub fn new(limit: u32, window_secs: u64) -> (limiter: Self)
        ensures
            limiter@.windows == Map::<Seq<char>, Window>::empty(),
            limiter@.limit == limit,
            limiter@.window == window_secs * NANOS_PER_SECOND,
    {
        assert(window_secs * NANOS_PER_SECOND <= u128::MAX) by (nonlinear_arith)
            requires
                window_secs <= u64::MAX,
                NANOS_PER_SECOND == 1_000_000_000,
        ;
        let limiter = RateLimiter {
            clients: Vec::new(),
            limit,
            window: (window_secs as u128) * NANOS_PER_SECOND,
        };
        assert(limiter@.windows =~= Map::<Seq<char>, Window>::empty());
        limiter
    }

    /// The place of the window of `client`, if it has one.
    fn find(&self, client: &str) -> (place: Option<usize>)
        ensures
            match place {
                Some(i) => i < self.clients@.len() && self.clients@[i as int].client@ == client@,
                None => !known(self.clients@, client@),
            },
    {
        let mut i: usize = 0;
        while i < self.clients.len()
            invariant
                i <= self.clients.len(),
                forall|k: int| 0 <= k < i ==> (#[trigger] self.clients@[k]).client@ != client@,
            decreases self.clients.len() - i,
        {
            if text_eq(self.clients[i].client.as_str(), client) {
                return Some(i);
            }
            i += 1;
        }
        None
    }

    /// Decides on a request of `client` that arrives at `now`, and counts it
    /// if it is granted.
    pub fn check(&mut self, client: &str, now: u128) -> (granted: bool)
        ensures
            granted == grants(
                window_found(old(self)@.windows, client@, now),
                old(self)@.limit,
                old(self)@.window,
                now,
            ),
            final(self)@.windows == old(self)@.windows.insert(
                client@,
                window_after(
                    window_found(old(self)@.windows, client@, now),
                    old(self)@.limit,
                    old(self)@.window,
                    now,
                ),
            ),
            final(self)@.limit == old(self)@.limit,
            final(self)@.window == old(self)@.window,
    {
        proof {
            use_type_invariant(&*self);
        }
        let ghost before = self.clients@;
        let found = self.find(client);
        let (place, count, started): (Option<usize>, u32, u128) = match found {
            Some(i) => (Some(i), self.clients[i].count, self.clients[i].started),
            None => (None, 0, now),
        };
        proof {
            if found is Some {
                lemma_window_at(before, found->0 as int);
            }
        }
        let passed: u128 = if now >= started {
            now - started
        } else {
            0
        };
        let (granted, count_after, started_after): (bool, u32, u128) = if passed > self.window {
            (true, 1, now)
        } else if count < self.limit {
            (true, count + 1, started)
        } else {
            (false, count, started)
        };
        let entry = ClientWindow {
            client: String::from_str(client),
            count: count_after,
            started: started_after,
        };
        let mut clients: Vec<ClientWindow> = Vec::new();
        std::mem::swap(&mut clients, &mut self.clients);
        match place {
            Some(i) => {
                clients.set(i, entry);
                proof {
                    lemma_windows_after_set(before, i as int, entry);
                }
            },
            None => {
                clients.push(entry);
                proof {
                    lemma_windows_after_push(before, entry);
                }
            },
        }
        self.clients = clients;
        granted
    }
}

/// Where no client has two windows, the window on record for the client of
/// the entry at `i` is that entry's.
proof fn lemma_window_at(clients: Seq<ClientWindow>, i: int)
    requires
        one_window_each(clients),
        0 <= i < clients.len(),
    ensures
        known(clients, clients[i].client@),
        windows_of(clients)[clients[i].client@] == (Window {
            count: clients[i].count,
            started: clients[i].started,
        }),
{
    let client = clients[i].client@;
    let at = place_of(clients, client);
    assert(0 <= at < clients.len() && clients[at].client@ == client);
    if at < i {
        assert(clients[at].client@ != clients[i].client@);
    }
    if i < at {
        assert(clients[i].client@ != clients[at].client@);
    }
}

/// Replacing the entry of a client by another entry of the same client
/// replaces its window and no other.
proof fn lemma_windows_after_set(clients: Seq<ClientWindow>, i: int, entry: ClientWindow)
    requires
        one_window_each(clients),
        0 <= i < clients.len(),
        entry.client@ == clients[i].client@,
    ensures
        one_window_each(clients.update(i, entry)),
        windows_of(clients.update(i, entry)) == windows_of(clients).insert(
            entry.client@,
            Window { count: entry.count, started: entry.started },
        ),
{
    let after = clients.update(i, entry);
    assert forall|a: int, b: int| 0 <= a < b < after.len() implies (#[trigger] after[a]).client@
        != (#[trigger] after[b]).client@ by {
        assert(after[a].client@ == clients[a].client@);
        assert(after[b].client@ == clients[b].client@);
    }
    assert forall|client: Seq<char>| known(after, client) <==> (known(clients, client) || client
        == entry.client@) by {
        if known(after, client) {
            let k = choose|k: int| 0 <= k < after.len() && (#[trigger] after[k]).client@ == client;
            assert(clients[k].client@ == client);
        }
        if known(clients, client) {
            let k = choose|k: int|
                0 <= k < clients.len() && (#[trigger] clients[k]).client@ == client;
            assert(after[k].client@ == client);
        }
        if client == entry.client@ {
            assert(after[i].client@ == client);
        }
    }
    assert forall|client: Seq<char>| known(after, client) implies #[trigger] windows_of(
        after,
    )[client] == windows_of(clients).insert(
        entry.client@,
        Window { count: entry.count, started: entry.started },
    )[client] by {
        let k = place_of(after, client);
        assert(0 <= k < after.len() && after[k].client@ == client);
        lemma_window_at(after, k);
        if client != entry.client@ {
            assert(k != i);
            assert(clients[k].client@ == client);
            lemma_window_at(clients, k);
        } else {
            lemma_window_at(after, i);
        }
    }
    assert(windows_of(after) =~= windows_of(clients).insert(
        entry.client@,
        Window { count: entry.count, started: entry.started },
    ));
}

/// Adding an entry for a client without a window adds its window and no other.
proof fn lemma_windows_after_push(clients: Seq<ClientWindow>, entry: ClientWindow)
    requires
        one_window_each(clients),
        !known(clients, entry.client@),
    ensures
        one_window_each(clients.push(entry)),
        windows_of(clients.push(entry)) == windows_of(clients).insert(
            entry.client@,
            Window { count: entry.count, started: entry.started },
        ),
{
    let after = clients.push(entry);
    assert forall|a: int, b: int| 0 <= a < b < after.len() implies (#[trigger] after[a]).client@
        != (#[trigger] after[b]).client@ by {
        if b == clients.len() {
            assert(clients[a].client@ != entry.client@);
        }
    }
    assert forall|client: Seq<char>| known(after, client) <==> (known(clients, client) || client
        == entry.client@) by {
        if known(after, client) {
            let k = choose|k: int| 0 <= k < after.len() && (#[trigger] after[k]).client@ == client;
            if k < clients.len() {
                assert(clients[k].client@ == client);
            }
        }
        if known(clients, client) {
            let k = choose|k: int|
                0 <= k < clients.len() && (#[trigger] clients[k]).client@ == client;
            assert(after[k].client@ == client);
        }
        if client == entry.client@ {
            assert(after[clients.len() as int].client@ == client);
        }
    }
    assert forall|client: Seq<char>| known(after, client) implies #[trigger] windows_of(
        after,
    )[client] == windows_of(clients).insert(
        entry.client@,
        Window { count: entry.count, started: entry.started },
    )[client] by {
        let k = place_of(after, client);
        assert(0 <= k < after.len() && after[k].client@ == client);
        lemma_window_at(after, k);
        if client != entry.client@ {
            assert(k < clients.len());
            assert(clients[k].client@ == client);
            lemma_window_at(clients, k);
        }
    }
    assert(windows_of(after) =~= windows_of(clients).insert(
        entry.client@,
        Window { count: entry.count, started: entry.started },
    ));
}

} // verus!
