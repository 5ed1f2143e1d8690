//! The TurboQuant paged cache: one packed row per token and head.
pub mod bits;
pub mod layout;
pub mod rows;
