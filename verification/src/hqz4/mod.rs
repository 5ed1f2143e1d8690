//! HQZ4: weights at four bits, after a randomized Hadamard transform of their input groups.
pub mod codes;
pub mod tensor;
pub mod shard;
pub mod kernels;
pub mod uqff;
pub mod linear;
