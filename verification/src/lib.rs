//! The request-response part of a tunnel that connects iceoryx2 services of different hosts over
//! zenoh.
//!
//! On each host the tunnel takes part in the local service with a client and a server (the
//! [`ports`]) and keeps a [`relay`] to the other hosts. A request of a local client reaches the
//! server port, travels over the relay, and is sent to the remote service by the client port
//! there. Its response takes the way back. [`maintenance`] says in which order the two are served,
//! [`wire`] what travels, and [`pending`] what is remembered on the way. [`builder`] says how a
//! relay comes into being, and [`propagation`] what holds of the whole.
//!
//! The crate decides what is to be done and with which bytes; shared memory and the network are
//! the business of its user.
pub mod builder;
pub mod header;
pub mod maintenance;
pub mod pending;
pub mod ports;
pub mod propagation;
pub mod relay;
pub mod wire;
pub mod zbytes;
