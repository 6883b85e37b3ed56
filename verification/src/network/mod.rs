//! Connections between servers: how messages are framed on a byte stream.
pub mod framing;
pub mod connections;
