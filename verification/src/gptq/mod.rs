//! Weights in the GPTQ and AWQ layouts: small unsigned levels, packed into 32-bit words.
pub mod fields;
pub mod load;
pub mod weights;
