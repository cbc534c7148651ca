//! Inventory of the host's sockets and a ledger of port reservations.
//!
//! The inventory joins the socket tables of the operating system with the
//! processes that hold the sockets, and gives a snapshot that can be
//! queried. The ledger lets operators claim a port for a service before the
//! service binds it, and refuses a port that is claimed or in use.
//!
//! The library does no input or output. The program around it reads the
//! tables, the clock and the keyboard, and hands over plain values.
//!
//! - [`socket`]: raw socket entries and the merging of the tables read
//! - [`process`]: which process owns which socket
//! - [`inventory`]: the snapshot
//! - [`filter`]: predicates over the records of a snapshot
//! - [`reservation`]: the ledger
//! - [`persistence`]: the ledger as a JSON document
//! - [`sorting`]: the order of texts and of snapshots
//! - [`dashboard`]: the state of the interactive dashboard
//! - [`gui`]: the state of the windowed port list
//! - [`rate_limit`]: the request limiter of the HTTP interface
//! - [`text`]: helpers over the characters of strings

pub mod dashboard;
pub mod filter;
pub mod gui;
pub mod inventory;
pub mod persistence;
pub mod process;
pub mod rate_limit;
pub mod reservation;
pub mod socket;
pub mod sorting;
pub mod text;
