//! Telemetry bridge between a robot controller and one remote monitoring
//! client: the wire framing, the plot batching engine, the session state
//! machine of the listener, and the application-facing mediator.

pub mod channel;
pub mod listener;
pub mod mediator;
pub mod packet;
pub mod packets;
pub mod plot;

pub use mediator::Mediator;
pub use packets::{Log, ToClient};
