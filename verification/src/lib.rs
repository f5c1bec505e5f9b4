//! Core of an HTTP/2 endpoint: the frame codec, the joining of header
//! blocks, the handshake, flow-control windows, stream states, and the
//! engine of one connection.
//!
//! The library performs no I/O. Bytes that have arrived are handed in,
//! frames and bytes to be written are handed out, and a timer is a call.
//! Header blocks stay compressed: the codec for them belongs to the
//! caller, which has to encode blocks in the order in which it hands them
//! in and decode them in the order in which they are handed out.
//!
//! Every function carries a contract, and the contracts are proved. What
//! is taken on trust is the behaviour of `bytes::Bytes`, which holds the
//! payloads; [`buf`] says what exactly.
//!
//! - [`wire`], [`frame`]: integers and frames as bytes, both ways.
//! - [`reader`], [`framer`], [`join`]: frames out of a stream of bytes,
//!   with header blocks made whole.
//! - [`handshake`]: the client preface and the first SETTINGS.
//! - [`window`], [`stream_state`], [`settings`]: the parts of the state of
//!   a connection.
//! - [`engine`]: the connection itself.
//! - [`interop`]: the service of the interoperability test server.

pub mod buf;
pub mod engine;
pub mod error;
pub mod frame;
pub mod framer;
pub mod handshake;
pub mod interop;
pub mod join;
pub mod reader;
pub mod settings;
pub mod stream_state;
pub mod window;
pub mod wire;
