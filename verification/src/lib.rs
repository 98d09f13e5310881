//! Driving coding agents from the outside: sessions, their screens, their logs, and the protocol
//! between a command line and the daemon that runs them.
pub mod cli;
pub mod client;
pub mod clock;
pub mod daemon;
pub mod fields;
pub mod gui;
pub mod json;
pub mod log;
pub mod numbers;
pub mod outline;
pub mod parser;
pub mod paths;
pub mod pattern;
pub mod protocol;
pub mod session;
pub mod terminal;
pub mod text;
