//! Scripted automation of a block-mode terminal session.
//!
//! A session is driven through the scripting port of a terminal emulator:
//! one request line goes out, and data lines, a status line and a conclusion
//! line come back. On top of single commands stand the screen operations of
//! a provider, and on top of those an interpreter of operation trees with a
//! store of variables.
//!
//! The library never reads or writes a connection. It says what to send,
//! takes what came back, and decides what that means:
//!
//! - [`command`] holds the commands and their request lines;
//! - [`exchange`] frames the response to one command and decodes it;
//! - [`execution_result`] is how an exchange can end;
//! - [`client_interface`] names what can execute a command, and where the
//!   emulator is reached;
//! - [`provider_operation`] turns a screen operation into its sequence of
//!   commands, and [`mainframe_provider`] carries such operations out on a
//!   session;
//! - [`mainframe_processor`] runs operation trees, with the variables of
//!   [`variable_store`];
//! - [`virtual_terminal`] is a terminal in memory, and [`session_laws`]
//!   states what the operations do to it;
//! - [`text`] has the character-level helpers of the line protocol.

pub mod client_interface;
pub mod command;
pub mod exchange;
pub mod execution_result;
pub mod mainframe_processor;
pub mod mainframe_provider;
pub mod provider_operation;
pub mod session_laws;
pub mod text;
pub mod variable_store;
pub mod virtual_terminal;
