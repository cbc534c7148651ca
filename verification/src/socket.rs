//! Raw socket table entries, as the operating system reports them, and the
//! merging of the per-protocol, per-address-family tables into one list.

use vstd::prelude::*;

verus! {

/// Transport protocol of a socket.
#[derive(Clone, Copy, Debug, PartialEq, Eq, Structural)]
pub enum Protocol {
    Tcp,
    Udp,
}

impl Protocol {
    /// The upper-case name of the protocol.
    pub open spec fn label_spec(self) -> Seq<char> {
        match self {
            Protocol::Tcp => "TCP"@,
            Protocol::Udp => "UDP"@,
        }
    }

    /// The upper-case name of the protocol, `"TCP"` or `"UDP"`.
    pub fn label(&self) -> (name: &'static str)
        ensures
            name@ == self.label_spec(),
    {
        match self {
            Protocol::Tcp => "TCP",
            Protocol::Udp => "UDP",
        }
    }
}

/// Connection state of a TCP socket.
#[derive(Clone, Copy, Debug, PartialEq, Eq, Structural)]
pub enum TcpState {
    Established,
    SynSent,
    SynRecv,
    FinWait1,
    FinWait2,
    TimeWait,
    Close,
    CloseWait,
    LastAck,
    Listen,
    Closing,
    NewSynRecv,
    DeleteTcb,
    Unknown,
}

impl TcpState {
    /// The conventional upper-case name of the state.
    pub open spec fn label_spec(self) -> Seq<char> {
        match self {
            TcpState::Established => "ESTABLISHED"@,
            TcpState::SynSent => "SYN_SENT"@,
            TcpState::SynRecv => "SYN_RECV"@,
            TcpState::FinWait1 => "FIN_WAIT1"@,
            TcpState::FinWait2 => "FIN_WAIT2"@,
            TcpState::TimeWait => "TIME_WAIT"@,
            TcpState::Close => "CLOSE"@,
            TcpState::CloseWait => "CLOSE_WAIT"@,
            TcpState::LastAck => "LAST_ACK"@,
            TcpState::Listen => "LISTEN"@,
            TcpState::Closing => "CLOSING"@,
            TcpState::NewSynRecv => "NEW_SYN_RECV"@,
            TcpState::DeleteTcb => "DELETE_TCB"@,
            TcpState::Unknown => "UNKNOWN"@,
        }
    }

    /// The conventional upper-case name of the state, such as `"LISTEN"`.
    pub fn label(&self) -> (name: &'static str)
        ensures
            name@ == self.label_spec(),
    {
        match self {
            TcpState::Established => "ESTABLISHED",
            TcpState::SynSent => "SYN_SENT",
            TcpState::SynRecv => "SYN_RECV",
            TcpState::FinWait1 => "FIN_WAIT1",
            TcpState::FinWait2 => "FIN_WAIT2",
            TcpState::TimeWait => "TIME_WAIT",
            TcpState::Close => "CLOSE",
            TcpState::CloseWait => "CLOSE_WAIT",
            TcpState::LastAck => "LAST_ACK",
            TcpState::Listen => "LISTEN",
            TcpState::Closing => "CLOSING",
            TcpState::NewSynRecv => "NEW_SYN_RECV",
            TcpState::DeleteTcb => "DELETE_TCB",
            TcpState::Unknown => "UNKNOWN",
        }
    }
}

/// Protocol of a socket together with what only that protocol has: a TCP
/// socket has a connection state, a UDP socket has none.
#[derive(Clone, Copy, Debug, PartialEq, Eq, Structural)]
pub enum Transport {
    Tcp(TcpState),
    Udp,
}

impl Transport {
    /// The protocol of the socket.
    pub open spec fn protocol_spec(self) -> Protocol {
        match self {
            Transport::Tcp(_) => Protocol::Tcp,
            Transport::Udp => Protocol::Udp,
        }
    }

    /// The state column of the socket: the TCP state's name, or `"UDP"`.
    pub open spec fn state_label_spec(self) -> Seq<char> {
        match self {
            Transport::Tcp(state) => state.label_spec(),
            Transport::Udp => "UDP"@,
        }
    }

    /// The protocol of the socket.
    pub fn protocol(&self) -> (protocol: Protocol)
        ensures
            protocol == self.protocol_spec(),
    {
        match self {
            Transport::Tcp(_) => Protocol::Tcp,
            Transport::Udp => Protocol::Udp,
        }
    }

    /// The state column of the socket: the TCP state's name, or `"UDP"`.
    pub fn state_label(&self) -> (name: &'static str)
        ensures
            name@ == self.state_label_spec(),
    {
        match self {
            Transport::Tcp(state) => state.label(),
            Transport::Udp => "UDP",
        }
    }
}

/// One row of the operating system's socket table.
#[derive(Debug, PartialEq, Eq)]
pub struct RawSocketEntry {
    /// Protocol and, for TCP, connection state.
    pub transport: Transport,
    /// Local host address, as text.
    pub local_host: String,
    /// Local port.
    pub local_port: u16,
    /// Remote host address, as text.
    pub remote_host: String,
    /// Remote port; 0 where there is no peer.
    pub remote_port: u16,
    /// Kernel object identifier of the socket, by which its owner is found.
    pub inode: u64,
}

/// Mathematical model of a [`RawSocketEntry`].
pub struct RawSocketView {
    pub transport: Transport,
    pub local_host: Seq<char>,
    pub local_port: u16,
    pub remote_host: Seq<char>,
    pub remote_port: u16,
    pub inode: u64,
}

impl View for RawSocketEntry {
    type V = RawSocketView;

    open spec fn view(&self) -> RawSocketView {
        RawSocketView {
            transport: self.transport,
            local_host: self.local_host@,
            local_port: self.local_port,
            remote_host: self.remote_host@,
            remote_port: self.remote_port,
            inode: self.inode,
        }
    }
}

impl Clone for RawSocketEntry {
    fn clone(&self) -> (copy: Self)
        ensures
            copy == *self,
    {
        RawSocketEntry {
            transport: self.transport,
            local_host: self.local_host.clone(),
            local_port: self.local_port,
            remote_host: self.remote_host.clone(),
            remote_port: self.remote_port,
            inode: self.inode,
        }
    }
}

/// The operating system's socket facility could not be queried.
#[derive(Clone, Copy, Debug, PartialEq, Eq, Structural)]
pub struct PlatformUnavailable;

/// The rows of the tables that could be read, table after table, each in its
/// own order; a table that could not be read adds nothing.
pub open spec fn merged_rows(
    tables: Seq<Result<Vec<RawSocketEntry>, PlatformUnavailable>>,
) -> Seq<RawSocketEntry>
    decreases tables.len(),
{
    if tables.len() == 0 {
        Seq::empty()
    } else {
        merged_rows(tables.drop_last()) + match tables.last() {
            Ok(rows) => rows@,
            Err(_) => Seq::empty(),
        }
    }
}

/// Whether at least one table could be read.
pub open spec fn some_table_read(
    tables: Seq<Result<Vec<RawSocketEntry>, PlatformUnavailable>>,
) -> bool {
    exists|i: int| 0 <= i < tables.len() && (#[trigger] tables[i]) is Ok
}

/// Merges the socket tables of the single queries (one per protocol and
/// address family) into one list.
///
/// A query that failed contributes nothing, so that a partial failure yields
/// a partial list. Only when every query failed is the facility reported as
/// unavailable. With no query at all the list is empty.
pub fn merge_tables(tables: &Vec<Result<Vec<RawSocketEntry>, PlatformUnavailable>>) -> (merged:
    Result<Vec<RawSocketEntry>, PlatformUnavailable>)
    ensures
        match merged {
            Ok(rows) => {
                &&& rows@ == merged_rows(tables@)
                &&& (tables@.len() == 0 || some_table_read(tables@))
            },
            Err(_) => tables@.len() > 0 && !some_table_read(tables@),
        },
{
    let mut rows: Vec<RawSocketEntry> = Vec::new();
    let mut any_read = false;
    let mut t: usize = 0;
    while t < tables.len()
        invariant
            t <= tables.len(),
            rows@ == merged_rows(tables@.take(t as int)),
            any_read == some_table_read(tables@.take(t as int)),
        decreases tables.len() - t,
    {
        let ghost before = rows@;
        match &tables[t] {
            Ok(table) => {
                any_read = true;
                let mut r: usize = 0;
                while r < table.len()
                    invariant
                        r <= table.len(),
                        rows@ == before + table@.take(r as int),
                    decreases table.len() - r,
                {
                    rows.push(table[r].clone());
                    assert(table@.take(r + 1) == table@.take(r as int).push(table@[r as int]));
                    r += 1;
                }
                assert(table@.take(table.len() as int) == table@);
            },
            Err(_) => {
                assert(rows@ == before + Seq::<RawSocketEntry>::empty());
            },
        }
        proof {
            let next = tables@.take(t + 1);
            assert(next.drop_last() == tables@.take(t as int));
            assert(next.last() == tables@[t as int]);
            if some_table_read(next) {
                let i = choose|i: int| 0 <= i < next.len() && (#[trigger] next[i]) is Ok;
                if i < t {
                    assert(tables@.take(t as int)[i] is Ok);
                }
            }
            if some_table_read(tables@.take(t as int)) {
                let i = choose|i: int|
                    0 <= i < t && (#[trigger] tables@.take(t as int)[i]) is Ok;
                assert(next[i] is Ok);
            }
            if tables@[t as int] is Ok {
                assert(next[t as int] is Ok);
            }
        }
        t += 1;
    }
    assert(tables@.take(tables.len() as int) == tables@);
    if any_read || tables.len() == 0 {
        Ok(rows)
    } else {
        Err(PlatformUnavailable)
    }
}

} // verus!
