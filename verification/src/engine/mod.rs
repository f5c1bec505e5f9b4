//! The engine of one connection: what each received frame and each request
//! of the application does to the streams, the windows and the frames that
//! wait to be written.
//!
//! [`model`], [`inbound`] and [`outbound`] describe the connection as a
//! mathematical value and every step as a function on it.
//! [`connection`] is the connection as it runs; each of its functions does
//! what the function of the same name says in the description.
//! [`table`], [`proofs_inbound`], [`proofs_outbound`], [`trace`] and
//! [`blocks`] prove what holds of every connection.

pub mod blocks;
pub mod connection;
pub mod inbound;
pub mod model;
pub mod outbound;
pub mod proofs_inbound;
pub mod proofs_outbound;
pub mod table;
pub mod trace;
