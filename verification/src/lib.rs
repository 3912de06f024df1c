//! Host telemetry snapshots and external-command results, with a verified
//! JSON rendering of both records.

pub mod json;
pub mod parse;
pub mod pc_info;
pub mod os_query;
pub mod utils;
