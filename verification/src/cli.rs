//! The command line: global options, the subcommands, the context handed to
//! each command, and the log filter chosen by `-v`.

use vstd::prelude::*;
use crate::client::Client;
use crate::dashboards::DashboardsArgs;
use crate::logs_cli::LogsArgs;
use crate::metrics::MetricsArgs;
use crate::monitors::MonitorsArgs;
use crate::output::OutputMode;
use crate::text::{push_str, string_from_chars};
use std::path::PathBuf;

verus! {

/// The global options and the subcommand.
#[derive(Debug)]
pub struct Cli {
    /// Datadog API key.
    pub api_key: Option<String>,
    /// Datadog application key.
    pub app_key: Option<String>,
    /// Datadog site.
    pub site: Option<String>,
    /// Named profile from the config file.
    pub profile: Option<String>,
    /// Path to the config file.
    pub config: Option<PathBuf>,
    /// Output mode: text, json, ndjson or table.
    pub output: Option<String>,
    /// How often `-v` was given.
    pub verbose: u8,
    pub command: Command,
}

/// The subcommands.
#[derive(Debug)]
pub enum Command {
    /// Query Datadog logs.
    Logs(LogsArgs),
    /// Read Datadog dashboards.
    Dashboards(DashboardsArgs),
    /// Read Datadog monitors.
    Monitors(MonitorsArgs),
    /// Query Datadog metrics.
    Metrics(MetricsArgs),
}

/// What every command runs with.
pub struct Ctx {
    pub client: Client,
    pub output: OutputMode,
}

/// The log level for a `-v` count: `warn`, `info`, `debug`, then `trace`.
pub open spec fn level_name(verbose: u8) -> Seq<char> {
    if verbose == 0 {
        "warn"@
    } else if verbose == 1 {
        "info"@
    } else if verbose == 2 {
        "debug"@
    } else {
        "trace"@
    }
}

/// The log filter used when `RUST_LOG` is not set: the level for this
/// program's three components.
pub open spec fn filter_directive(verbose: u8) -> Seq<char> {
    let l = level_name(verbose);
    "ddog="@ + l + ",dd_api="@ + l + ",dd_cli="@ + l
}

/// The log level for a `-v` count.
pub fn log_level(verbose: u8) -> (r: &'static str)
    ensures
        r@ == level_name(verbose),
{
    if verbose == 0 {
        "warn"
    } else if verbose == 1 {
        "info"
    } else if verbose == 2 {
        "debug"
    } else {
        "trace"
    }
}

/// The log filter for a `-v` count.
pub fn tracing_directive(verbose: u8) -> (r: String)
    ensures
        r@ == filter_directive(verbose),
{
    let l = log_level(verbose);
    let mut v: Vec<char> = Vec::new();
    push_str(&mut v, "ddog=");
    push_str(&mut v, l);
    push_str(&mut v, ",dd_api=");
    push_str(&mut v, l);
    push_str(&mut v, ",dd_cli=");
    push_str(&mut v, l);
    string_from_chars(v.as_slice())
}

} // verus!
