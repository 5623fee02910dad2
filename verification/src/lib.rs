//! Tally's verified core: content negotiation, request checks, the
//! trends page, and the shaping of stored rows into the report.

pub mod text;
pub mod format;
pub mod config;
pub mod model;
pub mod page;
pub mod store;
pub mod route;
