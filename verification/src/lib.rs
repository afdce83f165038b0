//! Coordination core of a mail-forwarding daemon.
//!
//! Messages harvested from inbound sources are fanned out to outbound
//! destinations according to a static routing table; transient delivery
//! failures are buffered by a retry agent and re-emitted after a fixed
//! delay.  This crate holds the verified heart of that system: the data
//! model, the routing and shutdown decisions of the hub, the retry
//! agent's state machine and its durable on-disk record format.  The
//! unverifiable rims (threads, channels, IMAP, SMTP, child processes)
//! live outside and consult these functions for every decision.

pub mod config;
pub mod dest;
pub mod digits;
pub mod hub;
pub mod lifecycle;
pub mod mail;
pub mod retry;
pub mod retryfile;
pub mod scenario;
pub mod source;
