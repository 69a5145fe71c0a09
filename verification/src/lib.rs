//! One-time passwords from a shared secret and a clock.
//!
//! A client derives a short-lived password from a PIN, a stored secret and
//! the seconds elapsed since its enrollment epoch. A server derives the same
//! password for every second of a window around its own clock and grants
//! access where one of them is the password submitted.
//!
//! The derivation has three steps, each in a module of its own: the cipher
//! key is assembled from the PIN and the secret ([`key`]), the elapsed
//! seconds are written as a time block ([`epoch`], [`timeblock`]), and the
//! time block is encrypted under the key ([`cipher`]). [`deriver`] puts the
//! steps together for the client; [`auth`] searches the window for the
//! server, in a directory of enrolled users ([`directory`]). [`client`] and
//! [`server`] hold the state of a session of either side.
//!
//! Every function states what it returns over the text of its arguments.
//! Three things are taken from other crates and believed, not proved: the
//! hexadecimal codec, the block cipher, and the calendar that turns a
//! date-time into a second.

pub mod auth;
pub mod cipher;
pub mod client;
pub mod decimal;
pub mod deriver;
pub mod directory;
pub mod epoch;
pub mod error;
pub mod hexcode;
pub mod key;
pub mod server;
pub mod text;
pub mod timeblock;
