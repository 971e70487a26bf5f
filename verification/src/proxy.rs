//! The proxy pipeline: reading a client's request head, routing it, and
//! cutting what goes upstream into fragments.

pub mod buffer;
pub mod handler;
pub mod http;
pub mod https;
