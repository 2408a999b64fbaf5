//! Decision core of a single-interface ARP proxy agent.
//!
//! The library inspects Ethernet/ARP frames, decides which senders are
//! answered with forged ARP frames, keeps the time-bounded record of the
//! targets that are being answered, and builds the forged frames byte for
//! byte. Clocks, sockets and locks belong to the caller: every function here
//! takes the current time and the stores as arguments.

pub mod address;
pub mod config;
pub mod repositories;
pub mod networks;
pub mod web;
