//! A Bloom filter: a probabilistic set-membership structure over strings.
//!
//! A filter of a given capacity keeps one flag per bit position. Adding an
//! element derives `hash_count` positions from a keyed digest of the element
//! and sets those flags; a lookup reports true exactly when every derived
//! position is set. False positives are possible; false negatives are not.

pub mod digest;
pub mod filter;
pub mod laws;

pub use filter::BloomError;
pub use filter::BloomFilter;
pub use filter::FilterModel;
