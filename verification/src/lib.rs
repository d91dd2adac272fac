//! Verified core of a signaling and relay server for remote desktop
//! endpoints.
//!
//! Endpoints register short human-friendly device IDs, keep themselves
//! reachable by heartbeat, negotiate connection intent through
//! server-mediated request proxying, and exchange opaque byte streams
//! through a credential-matched rendezvous relay.  This crate holds the
//! protocol and bookkeeping logic: the framed wire format, the
//! per-connection session state machine, the device directory, the
//! registries, the relay rendezvous and the traffic accounting.  The
//! surrounding process (sockets, timers, the external key-value store)
//! drives these state machines and performs the I/O they decide on.

pub mod accountant;
pub mod codec;
pub mod component;
pub mod handler;
pub mod network;
pub mod service;
pub mod session;
pub mod device_id;
pub mod model;
pub mod serializer;
