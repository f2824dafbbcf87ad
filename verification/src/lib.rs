//! Transport-layer logic for the Universal Tool Calling Protocol: how each
//! communication protocol frames requests, places credentials, and turns the
//! bytes it receives back into JSON values and tool descriptions.
pub mod json;
pub mod chars;
pub mod error;
pub mod auth;
pub mod tools;
pub mod providers;
pub mod transports;
pub mod table;
