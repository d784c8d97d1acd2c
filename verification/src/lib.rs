//! Client side of a length-prefixed binary handshake protocol: the frame
//! buffer, the catalogue of packets, the derivation of credentials and the
//! dispatch of inbound frames.

pub mod bridge;
pub mod error;
pub mod network;
pub mod packet;
pub mod packet_utils;
pub mod protocol;
pub mod text;
pub mod wire;
