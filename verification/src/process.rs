//! Correlation of sockets with the processes that own them.
//!
//! A scan of the process table yields, for each process, the kernel object
//! identifiers (inodes) of the sockets that its open descriptors target. The
//! correlator turns such a scan into a mapping from inode to owning process.

use crate::socket::PlatformUnavailable;
use std::collections::HashMap;
use vstd::prelude::*;

verus! {

/// What the scan found of one process.
#[derive(Debug, PartialEq, Eq)]
pub struct ProcessSockets {
    /// Process identifier.
    pub pid: i32,
    /// Display name of the process, where the platform gives one.
    pub name: Option<String>,
    /// Inodes of the sockets that the process holds open.
    pub inodes: Vec<u64>,
}

/// The process that owns a socket.
#[derive(Debug, PartialEq, Eq)]
pub struct ProcessOwner {
    /// Process identifier.
    pub pid: i32,
    /// Display name of the process, where the platform gives one.
    pub name: Option<String>,
}

/// Mathematical model of a [`ProcessOwner`].
pub struct OwnerView {
    pub pid: i32,
    pub name: Option<Seq<char>>,
}

/// The characters of an optional text.
pub open spec fn text_view(text: Option<String>) -> Option<Seq<char>> {
    match text {
        Some(t) => Some(t@),
        None => None,
    }
}

impl View for ProcessOwner {
    type V = OwnerView;

    open spec fn view(&self) -> OwnerView {
        OwnerView { pid: self.pid, name: text_view(self.name) }
    }
}

/// Result of looking at one process: what it holds, or a failure (the process
/// may have exited during the scan).
pub type ProcessScan = Result<ProcessSockets, PlatformUnavailable>;

/// Whether the scan of one process succeeded and found `inode` among its sockets.
pub open spec fn scan_holds(scan: ProcessScan, inode: u64) -> bool {
    match scan {
        Ok(process) => process.inodes@.contains(inode),
        Err(_) => false,
    }
}

/// The owner of `inode` according to `scans`: the last process in scan order
/// that holds it, if any does.
pub open spec fn owner_in(scans: Seq<ProcessScan>, inode: u64) -> Option<OwnerView>
    decreases scans.len(),
{
    if scans.len() == 0 {
        None
    } else if scan_holds(scans.last(), inode) {
        Some(OwnerView { pid: scans.last()->Ok_0.pid, name: text_view(scans.last()->Ok_0.name) })
    } else {
        owner_in(scans.drop_last(), inode)
    }
}

/// The mapping from socket inode to owning process that `scans` gives.
pub open spec fn correlation(scans: Seq<ProcessScan>) -> Map<u64, OwnerView> {
    Map::new(|inode: u64| owner_in(scans, inode) is Some, |inode: u64| owner_in(scans, inode)->0)
}

/// The models of the owners in `owners`.
pub open spec fn owner_views(owners: Map<u64, ProcessOwner>) -> Map<u64, OwnerView> {
    owners.map_values(|owner: ProcessOwner| owner@)
}

/// A copy of an optional text.
pub fn clone_text(text: &Option<String>) -> (copy: Option<String>)
    ensures
        copy == *text,
{
    match text {
        Some(t) => Some(t.clone()),
        None => None,
    }
}

/// The mapping `base` after the process `owner` was recorded for each of `inodes`.
spec fn recorded(base: Map<u64, OwnerView>, owner: OwnerView, inodes: Seq<u64>) -> Map<
    u64,
    OwnerView,
> {
    Map::new(
        |inode: u64| inodes.contains(inode) || base.contains_key(inode),
        |inode: u64|
            if inodes.contains(inode) {
                owner
            } else {
                base[inode]
            },
    )
}

/// Maps every socket inode that some scanned process holds to that process.
///
/// A process whose scan failed contributes no mapping, and the pass goes on.
/// Where several processes hold the same socket, the one scanned last is
/// recorded as its owner.
pub fn correlate(scans: &Vec<ProcessScan>) -> (owners: HashMap<u64, ProcessOwner>)
    ensures
        owner_views(owners@) == correlation(scans@),
{
    broadcast use vstd::std_specs::hash::group_hash_axioms;

    let mut owners: HashMap<u64, ProcessOwner> = HashMap::new();
    assert(owner_views(owners@) =~= correlation(scans@.take(0)));
    let mut p: usize = 0;
    while p < scans.len()
        invariant
            p <= scans.len(),
            owner_views(owners@) == correlation(scans@.take(p as int)),
        decreases scans.len() - p,
    {
        let ghost done = scans@.take(p as int);
        let ghost next = scans@.take(p + 1);
        assert(next.drop_last() == done);
        assert(next.last() == scans@[p as int]);
        match &scans[p] {
            Ok(process) => {
                let ghost base = correlation(done);
                let ghost owner_model = OwnerView {
                    pid: process.pid,
                    name: text_view(process.name),
                };
                assert(owner_views(owners@) =~= recorded(
                    base,
                    owner_model,
                    process.inodes@.take(0),
                ));
                let mut f: usize = 0;
                while f < process.inodes.len()
                    invariant
                        f <= process.inodes.len(),
                        owner_model == (OwnerView {
                            pid: process.pid,
                            name: text_view(process.name),
                        }),
                        owner_views(owners@) == recorded(
                            base,
                            owner_model,
                            process.inodes@.take(f as int),
                        ),
                    decreases process.inodes.len() - f,
                {
                    let inode = process.inodes[f];
                    let owner = ProcessOwner { pid: process.pid, name: clone_text(&process.name) };
                    let ghost before = owners@;
                    let ghost seen = process.inodes@.take(f as int);
                    owners.insert(inode, owner);
                    proof {
                        let now = process.inodes@.take(f + 1);
                        assert(now == seen.push(inode));
                        assert forall|i: u64| now.contains(i) <==> (seen.contains(i) || i
                            == inode) by {
                            if seen.contains(i) {
                                let k = choose|k: int| 0 <= k < seen.len() && seen[k] == i;
                                assert(now[k] == i);
                            }
                            if i == inode {
                                assert(now[f as int] == i);
                            }
                        }
                        assert(owners@ == before.insert(inode, owner));
                        assert(owner_views(owners@) =~= owner_views(before).insert(
                            inode,
                            owner_model,
                        ));
                        assert(owner_views(owners@) =~= recorded(base, owner_model, now));
                    }
                    f += 1;
                }
                proof {
                    assert(process.inodes@.take(process.inodes.len() as int) == process.inodes@);
                    assert forall|inode: u64| #[trigger]
                        owner_in(next, inode) == (if process.inodes@.contains(inode) {
                            Some(owner_model)
                        } else {
                            owner_in(done, inode)
                        }) by {}
                    assert(recorded(base, owner_model, process.inodes@) =~= correlation(next));
                }
            },
            Err(_) => {
                assert forall|inode: u64| #[trigger]
                    owner_in(next, inode) == owner_in(done, inode) by {}
                assert(owner_views(owners@) =~= correlation(next));
            },
        }
        p += 1;
    }
    assert(scans@.take(scans.len() as int) == scans@);
    owners
}

} // verus!
