//! The payloads that parts carry.

pub mod client_info;
pub mod conversion;
pub mod execution_result;
pub mod fetch_options;
pub mod hdb_value;
pub mod length;
pub mod option_part;
pub mod option_value;
pub mod output_parameters;
pub mod parameter_descriptor;
pub mod parameters;
pub mod partition_information;
pub mod read_lob_reply;
pub mod read_lob_request;
pub mod resultset;
pub mod resultset_metadata;
pub mod row;
pub mod server_error;
pub mod statement_context;
pub mod topology;
pub mod transaction_flags;
pub mod type_id;
pub mod value_laws;
