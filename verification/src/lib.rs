//! Core of an encrypted text-snippet service: sealing a paste for storage,
//! the short public token of a stored paste, the per-client creation quota,
//! and the two request pipelines that tie them together.

pub mod codec;
pub mod crypto;
pub mod error;
pub mod hexcode;
pub mod identity;
pub mod paste;
pub mod pipeline;
pub mod quota;
