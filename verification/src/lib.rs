//! A minimal genetic-encoding primitive: a scalar `Marker` with a lossless
//! fixed-width hexadecimal text form, and a `Gene` holding an ordered sequence
//! of markers whose first slot is a distinguished "influence" value.
//!
//! A marker's value is an IEEE-754 single-precision number, carried here as
//! its 32-bit pattern so that every encoding and structural rule is stated
//! and proved over plain integers.

pub mod entropy;
pub mod error;
pub mod gene;
pub mod hex;
pub mod marker;
pub mod mutation;

pub use gene::Gene;
pub use marker::Marker;
pub use mutation::Mutation;

pub use error::DecodeError;
pub use error::GeneError;
