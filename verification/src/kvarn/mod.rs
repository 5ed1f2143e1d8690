//! The KVarN paged cache: one record per block and head, keys at four bits, values at two.
pub mod layout;
pub mod tail;
pub mod record;
pub mod cache;
