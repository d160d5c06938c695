//! A minimal forward proxy core for the HTTP CONNECT tunneling method.
//!
//! The library holds the pure logic of the proxy: parsing the CONNECT
//! request line, enforcing a static allowlist, deciding each step of a
//! client session, relaying bytes unchanged, and bounding the number of
//! concurrently admitted sessions. The surrounding binary performs the
//! actual socket I/O — accepting clients, dialing upstream targets,
//! reading and writing — and feeds the outcomes back into these functions.

pub mod admission;
pub mod parse;
pub mod policy;
pub mod relay;
pub mod session;
