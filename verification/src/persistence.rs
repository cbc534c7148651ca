//! Saving and loading the ledger as a JSON document.
//!
//! The document is a flat JSON object from port number to service name,
//! written and read by `serde_json`. The ledger does not take the encoder's
//! word for it: a document is handed out only after it was read back and
//! found to hold the same mapping.

use crate::reservation::{service_views, PortReservationManager};
use std::collections::HashMap;
use vstd::prelude::*;
use vstd::std_specs::iter::IteratorSpec;

verus! {

/// The error type of `serde_json`.
#[verifier::external_type_specification]
#[verifier::external_body]
pub struct ExJsonError(serde_json::Error);

/// Why the ledger could not be saved or loaded.
#[derive(Clone, Copy, Debug, PartialEq, Eq, Structural)]
pub enum PersistenceFailure {
    /// The stable storage could not be read or written.
    Storage,
    /// No document could be written that reads back as the ledger.
    Encoding,
    /// The stored document is not a mapping from port to service name.
    Decoding,
}

/// What `serde_json::from_str` reads from `text` as a table from port to
/// service name: the mapping, or `None` where it rejects the text.
pub uninterp spec fn parsed_reservations(text: Seq<char>) -> Option<Map<u16, Seq<char>>>;

/// Calls `serde_json::from_str` for a table from `u16` to `String`. The
/// contract gives what was read the name [`parsed_reservations`]: it depends
/// on the characters of `text` alone. Nothing else is claimed of the parser.
#[verifier::external_body]
fn parse_reservations(text: &str) -> (parsed: Result<HashMap<u16, String>, serde_json::Error>)
    ensures
        match parsed {
            Ok(table) => parsed_reservations(text@) == Some(service_views(table@)),
            Err(_) => parsed_reservations(text@) is None,
        },
{
    serde_json::from_str(text)
}

/// Calls `serde_json::to_string` on a table from `u16` to `String`. Nothing
/// is claimed of the text: the order of its entries is that in which the
/// hash table is walked.
#[verifier::external_body]
fn render_reservations(table: &HashMap<u16, String>) -> (rendered: Result<
    String,
    serde_json::Error,
>) {
    serde_json::to_string(table)
}

/// Reads `text` as a table of reservations.
pub fn decode_reservations(text: &str) -> (decoded: Result<
    HashMap<u16, String>,
    PersistenceFailure,
>)
    ensures
        match decoded {
            Ok(table) => parsed_reservations(text@) == Some(service_views(table@)),
            Err(failure) => failure == PersistenceFailure::Decoding && parsed_reservations(text@)
                is None,
        },
{
    match parse_reservations(text) {
        Ok(table) => Ok(table),
        Err(_) => Err(PersistenceFailure::Decoding),
    }
}

/// What loading a stored document makes of a ledger: a document that can be
/// read replaces the mapping as it is; without a document, or with one that
/// cannot be read, the ledger stays as it was.
pub open spec fn after_load(ledger: Map<u16, Seq<char>>, stored: Option<Seq<char>>) -> Map<
    u16,
    Seq<char>,
> {
    match stored {
        Some(text) => match parsed_reservations(text) {
            Some(mapping) => mapping,
            None => ledger,
        },
        None => ledger,
    }
}

/// The result of loading a stored document.
pub open spec fn load_result(stored: Option<Seq<char>>) -> Result<(), PersistenceFailure> {
    match stored {
        Some(text) => if parsed_reservations(text) is Some {
            Ok(())
        } else {
            Err(PersistenceFailure::Decoding)
        },
        None => Ok(()),
    }
}

/// Whether two tables of reservations hold the same mapping from port to
/// service name.
pub fn same_reservations(a: &HashMap<u16, String>, b: &HashMap<u16, String>) -> (same: bool)
    ensures
        same == (service_views(a@) == service_views(b@)),
{
    broadcast use vstd::std_specs::hash::group_hash_axioms;

    if a.len() != b.len() {
        assert(service_views(a@).dom() =~= a@.dom());
        assert(service_views(b@).dom() =~= b@.dom());
        return false;
    }
    for port in it: a.keys()
        invariant
            a@.dom().len() == b@.dom().len(),
            it.seq() == a.keys().remaining(),
            forall|k: int|
                0 <= k < it.index() ==> b@.contains_key(*#[trigger] it.seq()[k])
                    && b@[*it.seq()[k]]@ == a@[*it.seq()[k]]@,
    {
        proof {
            let keys = a.keys().remaining();
            assert(keys.unref()[it.index()] == *port);
            assert(keys.unref().to_set().contains(*port));
        }
        let mine = a.get(port);
        let theirs = b.get(port);
        match (mine, theirs) {
            (Some(x), Some(y)) => {
                let equal = *x == *y;
                if !equal {
                    assert(service_views(a@)[*port] != service_views(b@)[*port]);
                    return false;
                }
            },
            _ => {
                assert(!service_views(b@).contains_key(*port));
                assert(service_views(a@).contains_key(*port));
                return false;
            },
        }
    }
    proof {
        let keys = a.keys().remaining();
        assert forall|p: u16| a@.dom().contains(p) implies b@.dom().contains(p) && b@[p]@
            == a@[p]@ by {
            assert(keys.unref().to_set().contains(p));
            let k = choose|k: int| 0 <= k < keys.unref().len() && keys.unref()[k] == p;
            assert(*keys[k] == p);
        }
        assert(a@.dom().subset_of(b@.dom()));
        vstd::set_lib::lemma_subset_equality(a@.dom(), b@.dom());
        assert(service_views(a@) =~= service_views(b@));
    }
    true
}

impl PortReservationManager {
    /// Decides whether `text` may be handed out as the saved ledger, given
    /// what reading it back gave: only if it reads back as this ledger's
    /// mapping.
    pub fn confirm_document(
        &self,
        text: String,
        reread: Result<HashMap<u16, String>, PersistenceFailure>,
    ) -> (document: Result<String, PersistenceFailure>)
        ensures
            match reread {
                Ok(table) => if service_views(table@) == self@ {
                    document == Ok::<String, PersistenceFailure>(text)
                } else {
                    document == Err::<String, PersistenceFailure>(PersistenceFailure::Encoding)
                },
                Err(_) => document == Err::<String, PersistenceFailure>(
                    PersistenceFailure::Encoding,
                ),
            },
    {
        match reread {
            Ok(table) => {
                let mine = self.get_all_reservations();
                if same_reservations(&mine, &table) {
                    Ok(text)
                } else {
                    Err(PersistenceFailure::Encoding)
                }
            },
            Err(_) => Err(PersistenceFailure::Encoding),
        }
    }

    /// Writes the ledger as a JSON document that reads back as the same
    /// mapping.
    pub fn to_json(&self) -> (document: Result<String, PersistenceFailure>)
        ensures
            match document {
                Ok(text) => parsed_reservations(text@) == Some(self@),
                Err(failure) => failure == PersistenceFailure::Encoding,
            },
    {
        let table = self.get_all_reservations();
        match render_reservations(&table) {
            Ok(text) => {
                let reread = decode_reservations(text.as_str());
                self.confirm_document(text, reread)
            },
            Err(_) => Err(PersistenceFailure::Encoding),
        }
    }

    /// Takes over what was decoded from a stored document: a table replaces
    /// the reservations as it is, with no check against the sockets that are
    /// live now; a failure leaves the ledger as it was and is handed on.
    pub fn restore(&mut self, decoded: Result<HashMap<u16, String>, PersistenceFailure>) -> (result:
        Result<(), PersistenceFailure>)
        ensures
            match decoded {
                Ok(table) => result == Ok::<(), PersistenceFailure>(()) && final(self)@
                    == service_views(table@),
                Err(failure) => result == Err::<(), PersistenceFailure>(failure) && final(self)@
                    == old(self)@,
            },
    {
        match decoded {
            Ok(table) => {
                self.replace_all(table);
                Ok(())
            },
            Err(failure) => Err(failure),
        }
    }

    /// Loads the stored JSON document, if there is one.
    ///
    /// Without a stored document nothing happens. A document that cannot be
    /// read as a mapping from port to service name is refused, and the
    /// ledger stays as it was.
    pub fn load_json(&mut self, stored: Option<&str>) -> (result: Result<(), PersistenceFailure>)
        ensures
            result == load_result(
                match stored {
                    Some(text) => Some(text@),
                    None => None,
                },
            ),
            final(self)@ == after_load(
                old(self)@,
                match stored {
                    Some(text) => Some(text@),
                    None => None,
                },
            ),
    {
        match stored {
            Some(text) => {
                let decoded = decode_reservations(text);
                self.restore(decoded)
            },
            None => Ok(()),
        }
    }
}

/// Saving and loading round-trip: a document that was written for a mapping
/// loads as that very mapping, into whatever ledger.
pub proof fn lemma_round_trip(
    saved: Map<u16, Seq<char>>,
    document: Seq<char>,
    ledger: Map<u16, Seq<char>>,
)
    requires
        parsed_reservations(document) == Some(saved),
    ensures
        load_result(Some(document)) == Ok::<(), PersistenceFailure>(()),
        after_load(ledger, Some(document)) == saved,
{
}

} // verus!
