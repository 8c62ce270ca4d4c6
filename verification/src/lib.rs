//! Client side of the X11 connection setup: credential records, the setup
//! request and the decoding of the server's reply.

pub mod auth;
pub mod byteorder;
pub mod connection;
pub mod errors;
pub mod handshake;
pub mod protocol;
pub mod transport;
pub mod utils;
