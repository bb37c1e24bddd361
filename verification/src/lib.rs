//! A serial-port engine: the command and response vocabulary of a serial
//! terminal, the session state machine behind it, and the rules for pacing a
//! file transfer at the speed of the configured link.
//!
//! The engine does no input or output of its own. A driver feeds it events
//! and performs the effects it answers with; a client talks to the driver
//! through two queues, commands one way and responses the other.

pub mod client;
pub mod engine;
pub mod laws;
pub mod link;
pub mod pacer;
pub mod protocol;
pub mod scanner;
pub mod text;

pub use crate::client::GeneralError;
pub use crate::client::SerialThread;
pub use crate::engine::Config;
pub use crate::engine::Effect;
pub use crate::engine::Engine;
pub use crate::engine::Event;
pub use crate::engine::OpenError;
pub use crate::engine::OpenPurpose;
pub use crate::engine::Setting;
pub use crate::link::DataBits;
pub use crate::link::FlowControl;
pub use crate::link::LinkSettings;
pub use crate::link::Parity;
pub use crate::link::StopBits;
pub use crate::pacer::Transfer;
pub use crate::protocol::ReadBytes;
pub use crate::protocol::SerialCommand;
pub use crate::protocol::SerialResponse;
