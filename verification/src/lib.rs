//! `ddog`: the verified core of a Datadog command line. Time expressions,
//! configuration precedence, request building, the retry policy, paging,
//! de-duplication of tailed events, response flattening and the text and
//! table renderings are specified and proved here.

pub mod text;
pub mod time_spec;
pub mod error;
pub mod client;
pub mod json;
pub mod logs;
pub mod logs_cli;
pub mod aggregate;
pub mod tail;
pub mod output;
pub mod metrics;
pub mod monitors;
pub mod dashboards;
pub mod config;
pub mod cli;
