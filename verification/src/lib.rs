//! A fixed-capacity ring buffer with first-in, first-out order.
//!
//! Once the buffer is full, a push discards the oldest element to make room
//! for the newest. The contract of every operation is stated over the plain
//! sequence of the live elements, oldest first.

pub mod buffer;
pub mod drain;
pub mod model;

pub use buffer::RingBuffer;
pub use drain::IntoIter;
