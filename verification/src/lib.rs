//! Real-time fan-out engine of a message relay.
//!
//! A payload that arrives on the shared notification channel is handed to
//! every live connection: to each bidirectional session through the session
//! registry, and to each push-stream consumer through its own bounded queue.
//! A connection whose delivery fails is removed; a silent bidirectional
//! connection is closed by its heartbeat monitor.
//!
//! The engine holds no socket and awaits nothing. The surrounding server reads
//! the clock and the network, hands plain values in, and carries out the
//! actions that come back.

pub mod ident;
pub mod sink;
pub mod registry;
pub mod relay;
pub mod heartbeat;
pub mod lifecycle;
pub mod sse;
pub mod bridge;
pub mod ingest;

