//! A small fetch-decode-execute core for a CHIP-8 style virtual CPU.

pub mod error;
pub mod stack;
pub mod decode;
pub mod machine;
mod progress;
pub mod laws;
