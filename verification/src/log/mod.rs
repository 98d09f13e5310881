//! The log of a session: its messages, and the bodies of its blocks.
pub mod bodies;
pub mod codec;
pub mod form;
pub mod formatter;
pub mod reader;
pub mod record;
pub mod writer;

pub use record::LogMessage;
pub use writer::LogWriter;
