//! Commands of a line-oriented speech-synthesis protocol and their exact
//! text on the wire.
//!
//! A caller builds a [`Command`] and asks for its text with `to_string`;
//! sending it is left to the caller. Text to be spoken goes through
//! [`Speech`], which doubles the dots that the receiving side would
//! otherwise take for the end of the text.
pub mod command;
pub mod decimal;
pub mod set_param;
pub mod speech;
pub mod text;
pub mod values;

pub use command::Command;
pub use set_param::SetParam;
pub use speech::Speech;
pub use values::{
    CapitalsMode, ClientId, GetParam, ListParam, NotificationParam, Priority, PunctuationLevel,
};
