//! Decision logic of a read-through caching proxy for release metadata:
//! semantic-version windows, release resolution, range selection and the
//! per-key fill state of the cache.

pub mod cache;
pub mod error;
pub mod range;
pub mod release;
pub mod store;
pub mod version;
