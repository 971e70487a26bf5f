//! DNS settings and the name servers the resolver is built from.

pub mod resolver;
