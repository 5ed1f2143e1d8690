//! Quantized weights and paged key/value caches: layouts, records, routes and launches.
#![allow(unused_imports)]

pub mod arith;
pub mod attention;
pub mod bytes;
pub mod cache_engine;
pub mod dtype;
pub mod flags;
pub mod float_bits;
pub mod gguf;
pub mod gptq;
pub mod hqz4;
pub mod isq;
pub mod kvarn;
pub mod launch;
pub mod little_endian;
pub mod paging;
pub mod regexes;
pub mod routing;
pub mod server;
pub mod speculative;
pub mod tensor;
pub mod text;
pub mod topology;
pub mod turboquant;
