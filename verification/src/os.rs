//! The operating system's proxy settings.

pub mod proxy;
