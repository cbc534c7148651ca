//! The reservation ledger: which port is claimed for which service.
//!
//! A reservation is an operator's intent, kept apart from what the operating
//! system has bound. The ledger holds at most one reservation per port.
//! A port is reserved against a fresh snapshot of the inventory, so that a
//! port with a live socket is not handed out.
//!
//! Every operation that changes the ledger takes it by `&mut`: the check and
//! the change are one step, and callers that share a ledger have to put it
//! behind a lock, which serialises them.

use crate::inventory::{is_port_in_use, port_in_use, port_views, PortInfo};
use crate::text::{decimal_string, decimal_text};
use std::collections::HashMap;
use vstd::prelude::*;
use vstd::string::*;

verus! {

/// Why the ledger refused an operation on a port.
#[derive(Clone, Copy, Debug, PartialEq, Eq, Structural)]
pub enum ReservationError {
    /// The port already has a reservation.
    AlreadyReserved(u16),
    /// A live socket is bound to the port.
    PortInUse(u16),
    /// The port has no reservation.
    NotReserved(u16),
}

impl ReservationError {
    /// The port that the refused operation was about.
    pub open spec fn port_spec(self) -> u16 {
        match self {
            ReservationError::AlreadyReserved(port) => port,
            ReservationError::PortInUse(port) => port,
            ReservationError::NotReserved(port) => port,
        }
    }

    /// What follows the port number in the message.
    pub open spec fn reason_spec(self) -> Seq<char> {
        match self {
            ReservationError::AlreadyReserved(_) => " is already reserved."@,
            ReservationError::PortInUse(_) => " is currently in use by another process."@,
            ReservationError::NotReserved(_) => " was not reserved."@,
        }
    }

    /// The message for the operator.
    pub open spec fn message_spec(self) -> Seq<char> {
        "Port "@ + decimal_text(self.port_spec() as nat) + self.reason_spec()
    }

    /// The port that the refused operation was about.
    pub fn port(&self) -> (port: u16)
        ensures
            port == self.port_spec(),
    {
        match self {
            ReservationError::AlreadyReserved(port) => *port,
            ReservationError::PortInUse(port) => *port,
            ReservationError::NotReserved(port) => *port,
        }
    }

    /// The message for the operator, such as `Port 9090 is already reserved.`
    pub fn message(&self) -> (text: String)
        ensures
            text@ == self.message_spec(),
    {
        let reason = match self {
            ReservationError::AlreadyReserved(_) => " is already reserved.",
            ReservationError::PortInUse(_) => " is currently in use by another process.",
            ReservationError::NotReserved(_) => " was not reserved.",
        };
        let mut text = String::from_str("Port ");
        let digits = decimal_string(self.port() as u64);
        text.append(digits.as_str());
        text.append(reason);
        text
    }
}

/// The result of asking to reserve `port` in `ledger`, when `in_use` tells
/// whether a live socket is bound to the port.
pub open spec fn reserve_result(ledger: Map<u16, Seq<char>>, port: u16, in_use: bool) -> Result<
    (),
    ReservationError,
> {
    if ledger.contains_key(port) {
        Err(ReservationError::AlreadyReserved(port))
    } else if in_use {
        Err(ReservationError::PortInUse(port))
    } else {
        Ok(())
    }
}

/// The ledger after asking to reserve `port` for `service`: the binding is
/// added if the request is granted, and nothing changes if it is refused.
pub open spec fn after_reserve(
    ledger: Map<u16, Seq<char>>,
    port: u16,
    service: Seq<char>,
    in_use: bool,
) -> Map<u16, Seq<char>> {
    if reserve_result(ledger, port, in_use) is Ok {
        ledger.insert(port, service)
    } else {
        ledger
    }
}

/// The result of asking to release `port` in `ledger`.
pub open spec fn release_result(ledger: Map<u16, Seq<char>>, port: u16) -> Result<
    (),
    ReservationError,
> {
    if ledger.contains_key(port) {
        Ok(())
    } else {
        Err(ReservationError::NotReserved(port))
    }
}

/// The ledger after asking to release `port`.
pub open spec fn after_release(ledger: Map<u16, Seq<char>>, port: u16) -> Map<u16, Seq<char>> {
    ledger.remove(port)
}

/// The mapping from port to service name that a table of reservations holds.
pub open spec fn service_views(reservations: Map<u16, String>) -> Map<u16, Seq<char>> {
    reservations.map_values(|service: String| service@)
}

/// The ledger of port reservations.
#[derive(Debug)]
pub struct PortReservationManager {
    reservations: HashMap<u16, String>,
}

impl View for PortReservationManager {
    type V = Map<u16, Seq<char>>;

    /// The mapping from reserved port to service name.
    closed spec fn view(&self) -> Map<u16, Seq<char>> {
        service_views(self.reservations@)
    }
}

impl Default for PortReservationManager {
    /// A ledger without reservations.
    fn default() -> (ledger: Self)
        ensures
            ledger@ == Map::<u16, Seq<char>>::empty(),
    {
        PortReservationManager::new()
    }
}

impl PortReservationManager {
    /// A ledger without reservations.
    pub fn new() -> (ledger: Self)
        ensures
            ledger@ == Map::<u16, Seq<char>>::empty(),
    {
        let ledger = PortReservationManager { reservations: HashMap::new() };
        assert(ledger@ =~= Map::<u16, Seq<char>>::empty());
        ledger
    }

    /// Reserves `port` for `service`, unless the port is reserved already or
    /// the snapshot `live` shows a socket bound to it.
    ///
    /// A port that is reserved already is refused as such whatever the
    /// snapshot shows. A refused request leaves the ledger as it was.
    pub fn reserve_port(&mut self, port: u16, service: String, live: &Vec<PortInfo>) -> (result:
        Result<(), ReservationError>)
        ensures
            result == reserve_result(old(self)@, port, port_in_use(port_views(live@), port)),
            final(self)@ == after_reserve(
                old(self)@,
                port,
                service@,
                port_in_use(port_views(live@), port),
            ),
            old(self)@.contains_key(port) ==> result == Err::<(), ReservationError>(
                ReservationError::AlreadyReserved(port),
            ),
            !old(self)@.contains_key(port) && port_in_use(port_views(live@), port) ==> result
                == Err::<(), ReservationError>(ReservationError::PortInUse(port)),
            result is Ok ==> final(self)@ == old(self)@.insert(port, service@),
            result is Err ==> final(self)@ == old(self)@,
    {
        broadcast use vstd::std_specs::hash::group_hash_axioms;

        if self.reservations.contains_key(&port) {
            return Err(ReservationError::AlreadyReserved(port));
        }
        if is_port_in_use(live, port) {
            return Err(ReservationError::PortInUse(port));
        }
        self.reservations.insert(port, service);
        assert(self@ =~= old(self)@.insert(port, service@));
        Ok(())
    }

    /// Releases the reservation of `port`, if there is one.
    pub fn release_port(&mut self, port: u16) -> (result: Result<(), ReservationError>)
        ensures
            result == release_result(old(self)@, port),
            final(self)@ == after_release(old(self)@, port),
            !old(self)@.contains_key(port) ==> result == Err::<(), ReservationError>(
                ReservationError::NotReserved(port),
            ) && final(self)@ == old(self)@,
    {
        broadcast use vstd::std_specs::hash::group_hash_axioms;

        let removed = self.reservations.remove(&port);
        assert(self@ =~= old(self)@.remove(port));
        match removed {
            Some(_) => Ok(()),
            None => Err(ReservationError::NotReserved(port)),
        }
    }

    /// Whether `port` is reserved.
    pub fn is_reserved(&self, port: u16) -> (reserved: bool)
        ensures
            reserved == self@.contains_key(port),
    {
        broadcast use vstd::std_specs::hash::group_hash_axioms;

        self.reservations.contains_key(&port)
    }

    /// The service that `port` is reserved for, if it is reserved.
    pub fn get_service(&self, port: u16) -> (service: Option<String>)
        ensures
            match service {
                Some(name) => self@.contains_key(port) && self@[port] == name@,
                None => !self@.contains_key(port),
            },
    {
        broadcast use vstd::std_specs::hash::group_hash_axioms;

        match self.reservations.get(&port) {
            Some(name) => Some(name.clone()),
            None => None,
        }
    }

    /// All reservations, as a table from port to service name.
    pub fn get_all_reservations(&self) -> (all: HashMap<u16, String>)
        ensures
            service_views(all@) == self@,
    {
        self.reservations.clone()
    }

    /// Replaces the reservations with `stored`, as they are: nothing is
    /// checked against the sockets that are live now.
    pub fn replace_all(&mut self, stored: HashMap<u16, String>)
        ensures
            final(self)@ == service_views(stored@),
    {
        self.reservations = stored;
    }
}

/// After a request to reserve a port, the port is reserved, unless the
/// request was refused because a live socket holds the port.
pub proof fn lemma_reserved_after_reserve(
    ledger: Map<u16, Seq<char>>,
    port: u16,
    service: Seq<char>,
    in_use: bool,
)
    requires
        reserve_result(ledger, port, in_use) != Err::<(), ReservationError>(
            ReservationError::PortInUse(port),
        ),
    ensures
        after_reserve(ledger, port, service, in_use).contains_key(port),
{
}

/// After a request to release a port, the port is not reserved, whether the
/// request was granted or refused.
pub proof fn lemma_unreserved_after_release(ledger: Map<u16, Seq<char>>, port: u16)
    ensures
        !after_release(ledger, port).contains_key(port),
{
}

/// The reservation cycle of one port: a granted reservation can be released,
/// and the release brings the ledger back to where it was.
pub proof fn lemma_reserve_release_restores(
    ledger: Map<u16, Seq<char>>,
    port: u16,
    service: Seq<char>,
)
    requires
        !ledger.contains_key(port),
    ensures
        release_result(after_reserve(ledger, port, service, false), port) == Ok::<
            (),
            ReservationError,
        >(()),
        after_release(after_reserve(ledger, port, service, false), port) == ledger,
{
    assert(ledger.insert(port, service).remove(port) =~= ledger);
}

/// The results of a run of requests for the same port, one after the other,
/// each wanting the port for its own service, while no live socket holds the
/// port.
pub open spec fn race_results(
    ledger: Map<u16, Seq<char>>,
    port: u16,
    services: Seq<Seq<char>>,
) -> Seq<Result<(), ReservationError>>
    decreases services.len(),
{
    if services.len() == 0 {
        Seq::empty()
    } else {
        seq![reserve_result(ledger, port, false)] + race_results(
            after_reserve(ledger, port, services.first(), false),
            port,
            services.drop_first(),
        )
    }
}

/// The ledger after such a run of requests.
pub open spec fn after_race(
    ledger: Map<u16, Seq<char>>,
    port: u16,
    services: Seq<Seq<char>>,
) -> Map<u16, Seq<char>>
    decreases services.len(),
{
    if services.len() == 0 {
        ledger
    } else {
        after_race(
            after_reserve(ledger, port, services.first(), false),
            port,
            services.drop_first(),
        )
    }
}

/// Requests for a port that is reserved are all refused as already reserved,
/// and change nothing.
proof fn lemma_race_lost(ledger: Map<u16, Seq<char>>, port: u16, services: Seq<Seq<char>>)
    requires
        ledger.contains_key(port),
    ensures
        race_results(ledger, port, services).len() == services.len(),
        forall|i: int|
            0 <= i < services.len() ==> #[trigger] race_results(ledger, port, services)[i] == Err::<
                (),
                ReservationError,
            >(ReservationError::AlreadyReserved(port)),
        after_race(ledger, port, services) == ledger,
    decreases services.len(),
{
    if services.len() > 0 {
        lemma_race_lost(ledger, port, services.drop_first());
    }
}

/// How many requests of a run were granted.
pub open spec fn granted_count(results: Seq<Result<(), ReservationError>>) -> nat {
    results.filter(|result: Result<(), ReservationError>| result is Ok).len()
}

/// Results that are all refusals hold no granted request.
proof fn lemma_none_granted(results: Seq<Result<(), ReservationError>>)
    requires
        forall|i: int| 0 <= i < results.len() ==> (#[trigger] results[i]) is Err,
    ensures
        granted_count(results) == 0,
    decreases results.len(),
{
    reveal(Seq::filter);
    if results.len() > 0 {
        assert forall|i: int| 0 <= i < results.drop_last().len() implies (
        #[trigger] results.drop_last()[i]) is Err by {
            assert(results.drop_last()[i] == results[i]);
        }
        lemma_none_granted(results.drop_last());
        assert(results[results.len() - 1] is Err);
    }
}

/// When several callers ask for the same port, which is neither reserved nor
/// in use, exactly one of them gets it: the ledger serves them one after the
/// other, in whatever order they arrive, grants the first request and
/// refuses every later one as already reserved.
pub proof fn lemma_one_winner(ledger: Map<u16, Seq<char>>, port: u16, services: Seq<Seq<char>>)
    requires
        !ledger.contains_key(port),
        services.len() >= 1,
    ensures
        race_results(ledger, port, services).len() == services.len(),
        granted_count(race_results(ledger, port, services)) == 1,
        race_results(ledger, port, services)[0] == Ok::<(), ReservationError>(()),
        forall|i: int|
            1 <= i < services.len() ==> #[trigger] race_results(ledger, port, services)[i] == Err::<
                (),
                ReservationError,
            >(ReservationError::AlreadyReserved(port)),
        after_race(ledger, port, services) == ledger.insert(port, services[0]),
{
    lemma_race_lost(ledger.insert(port, services[0]), port, services.drop_first());
    let first = seq![reserve_result(ledger, port, false)];
    let rest = race_results(ledger.insert(port, services[0]), port, services.drop_first());
    let granted = |result: Result<(), ReservationError>| result is Ok;
    assert forall|i: int| 1 <= i < services.len() implies #[trigger] race_results(
        ledger,
        port,
        services,
    )[i] == Err::<(), ReservationError>(ReservationError::AlreadyReserved(port)) by {
        assert(race_results(ledger, port, services)[i] == rest[i - 1]);
    }
    assert(race_results(ledger, port, services) == first + rest);
    lemma_none_granted(rest);
    Seq::filter_distributes_over_add(first, rest, granted);
    assert(first.filter(granted) =~= first) by {
        reveal(Seq::filter);
        assert(first.drop_last() =~= Seq::<Result<(), ReservationError>>::empty());
    }
}

} // verus!
