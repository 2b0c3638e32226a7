//! The broker side: frames, the subscriber registry, per-frame dispatch and
//! the life of one connection.

pub mod broker;
pub mod connection;
pub mod dispatcher;
pub mod frame;
pub mod text;

pub use broker::{Broker, Delivery};
pub use connection::{Connection, ConnectionState, Event, ERROR_TEXT};
pub use dispatcher::{ConnectionContext, Dispatcher, Outcome};
pub use frame::Frame;
