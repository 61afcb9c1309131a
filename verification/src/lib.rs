//! Incremental evaluation of a discounted-revenue query over two changing
//! relations: a stream of line items and a stream of parts, each arriving as
//! (row, timestamp, multiplicity) updates.  The library keeps per-tier keyed
//! indexes, maintains the multiset of (part key, revenue) matches under
//! insertions and retractions, and derives a deduplicated revenue total.

pub mod bytes;
pub mod index;
pub mod laws;
pub mod pipeline;
pub mod rows;
