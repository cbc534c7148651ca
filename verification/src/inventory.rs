//! The port inventory: a snapshot of the sockets that are open right now,
//! each with the process that owns it.

use crate::process::{clone_text, correlate, correlation, owner_views, text_view};
use crate::process::{OwnerView, ProcessOwner, ProcessScan};
use crate::socket::{merge_tables, merged_rows};
use crate::socket::{PlatformUnavailable, Protocol, RawSocketEntry, Transport};
use crate::text::{endpoint_text, format_endpoint};
use std::collections::HashMap;
use vstd::prelude::*;
use vstd::string::*;

verus! {

/// One socket as the inventory shows it.
#[derive(Debug, PartialEq, Eq)]
pub struct PortInfo {
    /// Transport protocol.
    pub protocol: Protocol,
    /// Local address as `host:port`.
    pub local_addr: String,
    /// Remote address as `host:port`, or `-` for a UDP socket without a peer.
    pub remote_addr: String,
    /// Name of the TCP connection state, or `UDP`.
    pub state: String,
    /// Identifier of the owning process, where one was found.
    pub pid: Option<i32>,
    /// Display name of the owning process, where one is known.
    pub process_name: Option<String>,
    /// Local port.
    pub port: u16,
    /// Tags that an operator assigned.
    pub tags: Vec<String>,
    /// Owning user, where the platform tells.
    pub user: Option<String>,
}

/// Mathematical model of a [`PortInfo`].
pub struct PortInfoView {
    pub protocol: Protocol,
    pub local_addr: Seq<char>,
    pub remote_addr: Seq<char>,
    pub state: Seq<char>,
    pub pid: Option<i32>,
    pub process_name: Option<Seq<char>>,
    pub port: u16,
    pub tags: Seq<Seq<char>>,
    pub user: Option<Seq<char>>,
}

/// The character sequences of the texts in `texts`, in order.
pub open spec fn text_views(texts: Seq<String>) -> Seq<Seq<char>> {
    texts.map_values(|t: String| t@)
}

impl View for PortInfo {
    type V = PortInfoView;

    open spec fn view(&self) -> PortInfoView {
        PortInfoView {
            protocol: self.protocol,
            local_addr: self.local_addr@,
            remote_addr: self.remote_addr@,
            state: self.state@,
            pid: self.pid,
            process_name: text_view(self.process_name),
            port: self.port,
            tags: text_views(self.tags@),
            user: text_view(self.user),
        }
    }
}

/// The models of the records in `ports`, in order.
pub open spec fn port_views(ports: Seq<PortInfo>) -> Seq<PortInfoView> {
    ports.map_values(|p: PortInfo| p@)
}

/// A copy of a list of texts.
pub fn clone_texts(texts: &Vec<String>) -> (copy: Vec<String>)
    ensures
        copy@ == texts@,
{
    let mut copy: Vec<String> = Vec::new();
    let mut i: usize = 0;
    while i < texts.len()
        invariant
            i <= texts.len(),
            copy@ == texts@.take(i as int),
        decreases texts.len() - i,
    {
        copy.push(texts[i].clone());
        assert(texts@.take(i + 1) == texts@.take(i as int).push(texts@[i as int]));
        i += 1;
    }
    assert(texts@.take(texts.len() as int) == texts@);
    copy
}

impl Clone for PortInfo {
    fn clone(&self) -> (copy: Self)
        ensures
            copy@ == self@,
    {
        PortInfo {
            protocol: self.protocol,
            local_addr: self.local_addr.clone(),
            remote_addr: self.remote_addr.clone(),
            state: self.state.clone(),
            pid: self.pid,
            process_name: clone_text(&self.process_name),
            port: self.port,
            tags: clone_texts(&self.tags),
            user: clone_text(&self.user),
        }
    }
}

/// The remote address column of a raw entry: `-` for a UDP socket without a
/// peer, `host:port` otherwise.
pub open spec fn remote_text(entry: RawSocketEntry) -> Seq<char> {
    if entry.transport is Udp && entry.remote_port == 0 {
        "-"@
    } else {
        endpoint_text(entry.remote_host@, entry.remote_port)
    }
}

/// The inventory record of one raw entry, given the owners of the sockets.
/// An entry whose inode has no owner keeps an empty process column.
pub open spec fn record_of(entry: RawSocketEntry, owners: Map<u64, OwnerView>) -> PortInfoView {
    PortInfoView {
        protocol: entry.transport.protocol_spec(),
        local_addr: endpoint_text(entry.local_host@, entry.local_port),
        remote_addr: remote_text(entry),
        state: entry.transport.state_label_spec(),
        pid: if owners.contains_key(entry.inode) {
            Some(owners[entry.inode].pid)
        } else {
            None
        },
        process_name: if owners.contains_key(entry.inode) {
            owners[entry.inode].name
        } else {
            None
        },
        port: entry.local_port,
        tags: Seq::empty(),
        user: None,
    }
}

/// Whether two records stand for the same socket: same protocol, same local address.
pub open spec fn same_socket(a: PortInfoView, b: PortInfoView) -> bool {
    a.protocol == b.protocol && a.local_addr == b.local_addr
}

/// Whether `rows` already holds a record for the socket of `row`.
pub open spec fn listed(rows: Seq<PortInfoView>, row: PortInfoView) -> bool {
    exists|i: int| 0 <= i < rows.len() && same_socket(#[trigger] rows[i], row)
}

/// Whether no two records of `rows` stand for the same socket.
pub open spec fn distinct_sockets(rows: Seq<PortInfoView>) -> bool {
    forall|i: int, j: int|
        0 <= i < j < rows.len() ==> !same_socket(#[trigger] rows[i], #[trigger] rows[j])
}

/// The snapshot that the raw entries and the owners give: the record of each
/// entry in the order of the entries, but for an entry whose socket an
/// earlier entry has already put on the list.
pub open spec fn snapshot_rows(entries: Seq<RawSocketEntry>, owners: Map<u64, OwnerView>) -> Seq<
    PortInfoView,
>
    decreases entries.len(),
{
    if entries.len() == 0 {
        Seq::empty()
    } else {
        let earlier = snapshot_rows(entries.drop_last(), owners);
        let row = record_of(entries.last(), owners);
        if listed(earlier, row) {
            earlier
        } else {
            earlier.push(row)
        }
    }
}

/// No snapshot shows the same socket twice: the pair of protocol and local
/// address is unique among its records.
pub proof fn lemma_snapshot_distinct(entries: Seq<RawSocketEntry>, owners: Map<u64, OwnerView>)
    ensures
        distinct_sockets(snapshot_rows(entries, owners)),
    decreases entries.len(),
{
    if entries.len() > 0 {
        lemma_snapshot_distinct(entries.drop_last(), owners);
    }
}

/// Every raw entry is represented in the snapshot: the snapshot holds a
/// record for its socket.
pub proof fn lemma_snapshot_covers(
    entries: Seq<RawSocketEntry>,
    owners: Map<u64, OwnerView>,
    k: int,
)
    requires
        0 <= k < entries.len(),
    ensures
        listed(snapshot_rows(entries, owners), record_of(entries[k], owners)),
    decreases entries.len(),
{
    let earlier = snapshot_rows(entries.drop_last(), owners);
    let rows = snapshot_rows(entries, owners);
    let last_row = record_of(entries.last(), owners);
    if k < entries.len() - 1 {
        lemma_snapshot_covers(entries.drop_last(), owners, k);
        let row = record_of(entries[k], owners);
        let i = choose|i: int| 0 <= i < earlier.len() && same_socket(#[trigger] earlier[i], row);
        assert(same_socket(rows[i], row));
    } else if listed(earlier, last_row) {
    } else {
        assert(same_socket(rows[rows.len() - 1], last_row));
    }
}

/// Every record of the snapshot is the record of a raw entry, and of the
/// first entry for its socket: no earlier entry has the same protocol and
/// local address.
pub proof fn lemma_snapshot_rows_are_first(
    entries: Seq<RawSocketEntry>,
    owners: Map<u64, OwnerView>,
    i: int,
) -> (k: int)
    requires
        0 <= i < snapshot_rows(entries, owners).len(),
    ensures
        0 <= k < entries.len(),
        snapshot_rows(entries, owners)[i] == record_of(entries[k], owners),
        forall|j: int|
            0 <= j < k ==> !same_socket(
                record_of(#[trigger] entries[j], owners),
                record_of(entries[k], owners),
            ),
    decreases entries.len(),
{
    let earlier = snapshot_rows(entries.drop_last(), owners);
    let last_row = record_of(entries.last(), owners);
    if i < earlier.len() {
        let k = lemma_snapshot_rows_are_first(entries.drop_last(), owners, i);
        assert forall|j: int| 0 <= j < k implies !same_socket(
            record_of(#[trigger] entries[j], owners),
            record_of(entries[k], owners),
        ) by {
            assert(entries.drop_last()[j] == entries[j]);
        }
        k
    } else {
        let k = entries.len() - 1;
        assert forall|j: int| 0 <= j < k implies !same_socket(
            record_of(#[trigger] entries[j], owners),
            record_of(entries[k], owners),
        ) by {
            lemma_snapshot_covers(entries.drop_last(), owners, j);
            let row = record_of(entries[j], owners);
            let at = choose|at: int|
                0 <= at < earlier.len() && same_socket(#[trigger] earlier[at], row);
            if same_socket(row, last_row) {
                assert(same_socket(earlier[at], last_row));
            }
        }
        k
    }
}

/// Builds the inventory record of one raw entry.
pub fn record_for(entry: &RawSocketEntry, owners: &HashMap<u64, ProcessOwner>) -> (record:
    PortInfo)
    ensures
        record@ == record_of(*entry, owner_views(owners@)),
{
    broadcast use vstd::std_specs::hash::group_hash_axioms;

    let local_addr = format_endpoint(entry.local_host.as_str(), entry.local_port);
    let no_peer = match entry.transport {
        Transport::Udp => entry.remote_port == 0,
        Transport::Tcp(_) => false,
    };
    let remote_addr = if no_peer {
        String::from_str("-")
    } else {
        format_endpoint(entry.remote_host.as_str(), entry.remote_port)
    };
    let (pid, process_name) = match owners.get(&entry.inode) {
        Some(owner) => (Some(owner.pid), clone_text(&owner.name)),
        None => (None, None),
    };
    let record = PortInfo {
        protocol: entry.transport.protocol(),
        local_addr,
        remote_addr,
        state: String::from_str(entry.transport.state_label()),
        pid,
        process_name,
        port: entry.local_port,
        tags: Vec::new(),
        user: None,
    };
    assert(record@.tags =~= Seq::<Seq<char>>::empty());
    record
}

/// Whether `ports` already holds a record for the socket of `record`.
pub fn is_listed(ports: &Vec<PortInfo>, record: &PortInfo) -> (found: bool)
    ensures
        found == listed(port_views(ports@), record@),
{
    let mut i: usize = 0;
    while i < ports.len()
        invariant
            i <= ports.len(),
            forall|k: int| 0 <= k < i ==> !same_socket(#[trigger] port_views(ports@)[k], record@),
        decreases ports.len() - i,
    {
        if ports[i].protocol == record.protocol && ports[i].local_addr == record.local_addr {
            assert(same_socket(port_views(ports@)[i as int], record@));
            return true;
        }
        i += 1;
    }
    false
}

/// Joins the raw socket entries with the owners of their inodes into a
/// snapshot.
///
/// Each entry gives one record, in the order of the entries; an entry whose
/// inode has no known owner still appears, without a process. Where several
/// entries have the same protocol and local address, only the first is kept,
/// so that no socket is shown twice.
pub fn snapshot(entries: &Vec<RawSocketEntry>, owners: &HashMap<u64, ProcessOwner>) -> (ports:
    Vec<PortInfo>)
    ensures
        port_views(ports@) == snapshot_rows(entries@, owner_views(owners@)),
        distinct_sockets(port_views(ports@)),
{
    let mut ports: Vec<PortInfo> = Vec::new();
    let mut i: usize = 0;
    assert(port_views(ports@) =~= snapshot_rows(entries@.take(0), owner_views(owners@)));
    while i < entries.len()
        invariant
            i <= entries.len(),
            port_views(ports@) == snapshot_rows(entries@.take(i as int), owner_views(owners@)),
        decreases entries.len() - i,
    {
        let record = record_for(&entries[i], owners);
        let ghost before = ports@;
        assert(entries@.take(i + 1).drop_last() == entries@.take(i as int));
        assert(entries@.take(i + 1).last() == entries@[i as int]);
        if !is_listed(&ports, &record) {
            ports.push(record);
            assert(port_views(ports@) =~= port_views(before).push(record@));
        }
        i += 1;
    }
    assert(entries@.take(entries.len() as int) == entries@);
    proof {
        lemma_snapshot_distinct(entries@, owner_views(owners@));
    }
    ports
}

/// Produces the current snapshot from what was read of the socket tables and
/// of the process table.
///
/// Tables and processes that could not be read are left out; if nothing
/// could be read the snapshot is empty.
pub fn list_ports(
    tables: &Vec<Result<Vec<RawSocketEntry>, PlatformUnavailable>>,
    scans: &Vec<ProcessScan>,
) -> (ports: Vec<PortInfo>)
    ensures
        port_views(ports@) == snapshot_rows(merged_rows(tables@), correlation(scans@)),
        distinct_sockets(port_views(ports@)),
{
    let owners = correlate(scans);
    match merge_tables(tables) {
        Ok(entries) => snapshot(&entries, &owners),
        Err(_) => {
            let entries: Vec<RawSocketEntry> = Vec::new();
            proof {
                lemma_unread_tables_are_empty(tables@);
            }
            snapshot(&entries, &owners)
        },
    }
}

/// Tables of which none could be read merge into the empty list.
proof fn lemma_unread_tables_are_empty(
    tables: Seq<Result<Vec<RawSocketEntry>, PlatformUnavailable>>,
)
    requires
        forall|i: int| 0 <= i < tables.len() ==> !((#[trigger] tables[i]) is Ok),
    ensures
        merged_rows(tables) == Seq::<RawSocketEntry>::empty(),
    decreases tables.len(),
{
    if tables.len() > 0 {
        assert(!(tables[tables.len() - 1] is Ok));
        assert forall|i: int| 0 <= i < tables.drop_last().len() implies !((
        #[trigger] tables.drop_last()[i]) is Ok) by {
            assert(!(tables[i] is Ok));
        }
        lemma_unread_tables_are_empty(tables.drop_last());
    }
}

/// Whether the snapshot shows a live socket bound to the local port `port`.
pub open spec fn port_in_use(ports: Seq<PortInfoView>, port: u16) -> bool {
    exists|i: int| 0 <= i < ports.len() && (#[trigger] ports[i]).port == port
}

/// Whether the snapshot shows a live socket bound to the local port `port`.
pub fn is_port_in_use(ports: &Vec<PortInfo>, port: u16) -> (in_use: bool)
    ensures
        in_use == port_in_use(port_views(ports@), port),
{
    let mut i: usize = 0;
    while i < ports.len()
        invariant
            i <= ports.len(),
            forall|k: int| 0 <= k < i ==> (#[trigger] port_views(ports@)[k]).port != port,
        decreases ports.len() - i,
    {
        if ports[i].port == port {
            assert(port_views(ports@)[i as int].port == port);
            return true;
        }
        i += 1;
    }
    false
}

} // verus!
