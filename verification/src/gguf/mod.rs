//! Weights in the block formats of GGUF files, and mixtures of experts made of them.
pub mod bias;
pub mod blocks;
pub mod cache;
pub mod header;
pub mod limits;
pub mod matmul;
pub mod moe;
pub mod staged;
pub mod types;
