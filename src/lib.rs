//! The engine of a terminal IRC client: the line grammar, the outbound
//! formatter, the channel directory and session reducer, the bounded
//! backlog between the network reader and the consumer, and the
//! connection's decisions; beside it, the pieces of the terminal front end
//! that are plain logic (line editing, recall history, key bindings and
//! styled output).
pub mod text;
pub mod order;
pub mod prefix;
pub mod command;
pub mod message;
pub mod ircclient;
pub mod queue;
pub mod channel;
pub mod state;
pub mod client;
pub mod boundedset;
pub mod history;
pub mod inputbuffer;
pub mod keybinds;
pub mod colors;
pub mod output;
pub mod config;
