//! Driving the WinRing0 kernel driver: the lifecycle of its service, the
//! control channel to it, the binary protocol spoken over that channel, and
//! the port, MSR and PCI configuration operations built on the protocol.
//!
//! The library decides and encodes; it performs no system call. Each
//! operation is given as the exchange to perform and as a function of what
//! the exchange brought back, so that every decision is made by verified code
//! and the caller only carries requests and outcomes to and from the system.

pub mod channel;
pub mod cpu;
pub mod error;
pub mod laws;
pub mod outcome;
pub mod peer;
pub mod protocol;
pub mod service;
pub mod win_ring;
pub mod wire;
