//! The request and response types of the connector, and the JSON values they carry.
pub mod input;
pub mod output;
