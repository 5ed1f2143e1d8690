//! What the attention kernels are launched with, and when a launch is refused.
//!
//! A launch is planned from the element types, shapes and places of its tensors. The plan holds
//! every number that the kernel is handed.
pub mod checks;
pub mod kvarn;
pub mod legacy;
pub mod mtp;
pub mod turbo;
