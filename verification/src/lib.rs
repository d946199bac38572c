//! A relay hub for chat connections: connections log in under an identifier,
//! and frames addressed to that identifier are passed on to them.
pub mod message;
pub mod registry;
pub mod relay;
pub mod laws;
