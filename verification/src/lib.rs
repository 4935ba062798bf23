//! An iterative DNS resolver library: a verified wire-format codec for DNS
//! messages (RFC 1035, including name compression) and the delegation-walking
//! resolution algorithm built on top of it.

pub mod cursor;
pub mod errors;
pub mod header;
pub mod packet;
pub mod query;
pub mod question;
pub mod record;
pub mod record_name;
pub mod rng;
pub mod root_servers;
pub mod socket;
pub mod text;
