//! A transport abstraction and multiplexing layer.
//!
//! Two peers exchange ordered, multiplexed message streams over one of
//! several interchangeable substrates: a TCP socket, an in-process channel
//! pair, or a QUIC connection.  Every substrate is presented through one
//! symmetric send/receive interface; a connection is split into a send half
//! and a receive half that can be driven independently.
//!
//! Around the transport live a few sibling services of the same process:
//! localization data with its language store, chunk-grid index arithmetic,
//! and a small stamped cache.

pub mod assoc;
pub mod cache;
pub mod chan;
pub mod facade;
pub mod framing;
pub mod grid;
pub mod handshake;
pub mod i18n;
pub mod locale;
pub mod mpsc;
pub mod quic;
pub mod quic_framing;
pub mod registry;
pub mod str_assoc;
pub mod tcp;
pub mod types;
pub mod wire;
