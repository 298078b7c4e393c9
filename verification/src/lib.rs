//! Wire codec and message envelopes for a secure group-messaging pipeline.
//!
//! Every message that crosses between the network, security and user-interface
//! planes is one of four tagged unions of fixed-shape records. This crate states
//! the byte grammar of each as spec functions, implements encoders and decoders
//! for them, and proves that they agree.

pub mod error;
pub mod codec;
pub mod wrapper;
pub mod vectors;
pub mod opaque;
pub mod records;
pub mod events;
