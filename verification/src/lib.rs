//! Resolution of short, user-defined target aliases held in the `[alias]`
//! section of a build configuration.

pub mod text;
pub mod chain;
pub mod config;
pub mod error;
pub mod resolver;
pub mod provider;
pub mod cache;
pub mod xcode;
