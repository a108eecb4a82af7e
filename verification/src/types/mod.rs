//! The value types that are more than a plain integer or string.

pub mod dates;
pub mod decimal;
pub mod lob;
pub mod secondtime;
