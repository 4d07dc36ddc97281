//! Node registration over a control-plane message bus.
//!
//! A storage node announces itself to the control plane by publishing a
//! `register` message on the bus, repeats that announcement as a periodic
//! heartbeat, and publishes a single best-effort `deregister` message when
//! it shuts down.  This crate holds the verified core of that subsystem:
//!
//! * [`config`] — the immutable service configuration and the parsing of
//!   the environment-supplied heartbeat interval;
//! * [`payload`] — the exact bytes of the `register` and `deregister`
//!   channel payloads (compact JSON built and proved byte by byte);
//! * [`retry`] — the connect-retry and readiness-poll policy, with its
//!   log-once-per-outage guarantee;
//! * [`registration`] — the heartbeat state machine itself: one event in,
//!   one publish out, with the ordering and shutdown laws proved over
//!   whole runs;
//! * [`errors`] — the error taxonomy of the subsystem.
//!
//! The network, the timers and the cancellation channel live outside the
//! crate: a host loop feeds the machine one [`registration::Event`] at a
//! time and performs the publish the machine hands back.

pub mod config;
pub mod errors;
pub mod payload;
pub mod registration;
pub mod retry;
