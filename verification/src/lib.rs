//! A multi-producer, single-consumer unbounded channel, together with a few
//! small companion pieces: a double-ended flattening cursor, a delimiter-based
//! string splitter, a mutual-exclusion lock, and simple single-owner cells.
//!
//! The channel is the core: any number of cloneable `Sender` handles push
//! values into a shared FIFO queue, and the single `Receiver` pops them,
//! draining whole batches into a private buffer so that most receives touch
//! no lock at all.

pub mod cell;
pub mod channel;
pub mod flatten;
pub mod model;
pub mod refcell;
pub mod spinlock;
pub mod split;
