//! A framework for command bots on a relay-based network of signed events:
//! the event model and its validity rules, command routing, and the
//! decisions of the connection, sending and lifecycle steps.

pub mod bot;
pub mod crypto;
pub mod dispatch;
pub mod event;
pub mod text;

pub use crate::bot::{new_sender, Bot, Network, Sender};
pub use crate::dispatch::{help_command, Command, FunctorType};
pub use crate::event::{format_reply, Event, EventNonSigned};
