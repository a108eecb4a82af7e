//! Protocol engine of a client for SAP HANA's SQL wire protocol: the framed
//! message codec, the typed value model, and the per-connection session state.
//!
//! Everything here works on byte buffers and plain values; moving bytes over
//! a socket is left to the caller.

pub mod argument;
pub mod authentication;
pub mod conn_core;
pub mod error;
pub mod exchange;
pub mod hdb_response;
pub mod initial_request;
pub mod laws;
pub mod message;
pub mod part;
pub mod part_attributes;
pub mod partkind;
pub mod parts;
pub mod prepared_statement;
pub mod repeat;
pub mod reply_type;
pub mod request_type;
pub mod text;
pub mod types;
pub mod wire;

pub use crate::conn_core::ConnectionState;
pub use crate::error::{HdbError, HdbResult};
pub use crate::hdb_response::{HdbResponse, HdbReturnValue};
pub use crate::message::{Reply, Request};
pub use crate::parts::hdb_value::HdbValue;
pub use crate::parts::resultset::ResultSet;
pub use crate::parts::row::Row;
pub use crate::prepared_statement::PreparedStatement;
