//! The LocalSend protocol engine: peer discovery decisions, the actor that
//! owns the device registry and the transfer sessions, the negotiation of a
//! file offer, the upload token check and the progress counter of an upload.
//!
//! Everything here is plain computation with a contract. Sockets, HTTP,
//! channels and files are handled by the program around the library, which
//! hands the library plain values and acts on what comes back.

pub mod api;
pub mod string_map;
pub mod model;
pub mod mission;
pub mod multicast;
pub mod negotiation;
pub mod request;
pub mod server;
pub mod transfer;
