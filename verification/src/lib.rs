//! A sequence-transformation combinator that pairs each element produced by a
//! sequence producer with a running counter of a caller-chosen numeric type.
//!
//! The counter abstraction lives in [`counter`], the sequence-producer
//! abstraction and two concrete producers in [`producer`], the adapter itself
//! in [`enumerate`], and the mathematical model of the iteration protocol,
//! with the laws proved about it, in [`model`].

pub mod counter;
pub mod enumerate;
pub mod model;
pub mod producer;

pub use counter::Counter;
pub use enumerate::Enumerate;
pub use enumerate::EnumerateNumber;
pub use producer::DoubleEndedProducer;
pub use producer::ExactSizeProducer;
pub use producer::Producer;
pub use producer::RangeProducer;
pub use producer::VecProducer;
