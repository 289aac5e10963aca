//! A capacity-bounded ordered map that keeps the entries with the largest
//! keys, and the reader of the transaction records that feed it.

pub mod error;
pub mod laws;
pub mod mempool;
pub mod order;
pub mod record;
