//! Parsing and validation of the `cf-meta-*` response headers returned by a
//! public "what is my IP" endpoint: a case-insensitive header accessor and a
//! builder that turns one header snapshot into a validated metadata record.

pub mod autonomous_system;
pub mod coordinate;
pub mod headers;
pub mod ip;
pub mod metadata;
pub mod numbers;
pub mod strings;
pub mod time_zone;
