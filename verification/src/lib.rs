//! A per-connection time-series price store with a fixed-width binary
//! wire protocol: 9-byte big-endian requests insert a price at a
//! timestamp or ask for the truncated mean over a closed timestamp
//! range, and each query is answered with a 4-byte big-endian integer.

pub mod laws;
pub mod session;
pub mod store;
pub mod wire;
