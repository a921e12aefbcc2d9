//! A duplex-sponge protocol framework over a reduced-round Keccak
//! permutation: one stateful object that hashes, keys, encrypts,
//! authenticates and squeezes randomness through a synchronized sequence of
//! framed operations, so two parties can build ad-hoc symmetric protocols.
//!
//! `meow` holds the engine, `model` its mathematical model, `laws` the
//! protocol properties proved over that model, and `kitten` the permutation
//! layer.

pub mod kitten;
pub mod laws;
pub mod meow;
pub mod model;

pub use crate::kitten::AlignedKittenState;
pub use crate::kitten::STATE_SIZE_U8;
pub use crate::kitten::STATE_SIZE_U64;
pub use crate::meow::MacError;
pub use crate::meow::Meow;
pub use crate::model::MEOW_R;
pub use crate::model::RATCHET_LEN;
