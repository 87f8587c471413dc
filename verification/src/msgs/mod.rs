//! Message envelope schemas.

pub mod http;
