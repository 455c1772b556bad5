//! Core of a client for a line-oriented request/response document-retrieval
//! protocol: response parsing, status classification, link extraction and
//! resolution, and a bounded redirect-following navigation session.
//!
//! Transport (TLS sockets), terminal display, prompting and process spawning
//! are left to the surrounding application; everything here is pure logic
//! over plain values, verified against the contracts below.

pub mod client;
pub mod location;
pub mod models;
pub mod status;
pub mod text;
