//! Verified core of GuardPetal, a local-first home network inspector.
pub mod cli;
pub mod crypto;
pub mod primitives;
pub mod render;
pub mod scanner;
pub mod settings;
pub mod storage;
pub mod text;
pub mod vault;
