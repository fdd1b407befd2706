//! Metrics: the v2 timeseries query request and response, and `metrics
//! query`'s flattening of the column-oriented response into points.
//!
//! Bucket values are floating-point numbers in the API; here they are a type
//! parameter `V` that is only carried along.

use vstd::prelude::*;
use crate::json::JsonValue;
use crate::logs::opt_view;
use crate::logs_cli::{CliError, views};
use crate::text::{
    decimal_i64, decimal_int, join, join_strings, string_from_chars, trim, trim_str,
};
use crate::time_spec::{
    clock_range, epoch_admissible, epoch_input_admissible, epoch_spec, int_outcome, now_unix_secs,
    to_epoch_secs_at, duration_admissible, duration_input_admissible, duration_secs,
    duration_spec, unix_rfc3339, unix_to_rfc3339, TimeFault,
};

verus! {

/// Path of the timeseries query endpoint (`from`/`to`/`interval` in
/// milliseconds).
pub const TIMESERIES_PATH: &'static str = "api/v2/query/timeseries";

// ---- Request --------------------------------------------------------------------------

/// A timeseries query request.
#[derive(Debug)]
pub struct TimeseriesRequest {
    pub data: RequestData,
}

/// The body of a timeseries query request.
#[derive(Debug)]
pub struct RequestData {
    pub kind: String,
    pub attributes: RequestAttributes,
}

/// The window, interval, queries and formulas of a request.
#[derive(Debug)]
pub struct RequestAttributes {
    pub from: i64,
    pub to: i64,
    pub interval: Option<i64>,
    pub queries: Vec<MetricQuery>,
    pub formulas: Vec<Formula>,
}

/// One named metrics query.
#[derive(Debug)]
pub struct MetricQuery {
    pub data_source: String,
    pub query: String,
    pub name: String,
}

/// A formula over the named queries.
#[derive(Debug)]
pub struct Formula {
    pub formula: String,
}

/// The request for a single metric query: one `metrics` query named `q1`
/// and the formula `q1`.
pub fn timeseries_request(from_ms: i64, to_ms: i64, interval_ms: Option<i64>, query: &str) -> (r:
    TimeseriesRequest)
    ensures
        r.data.kind@ == "timeseries_request"@,
        r.data.attributes.from == from_ms,
        r.data.attributes.to == to_ms,
        r.data.attributes.interval == interval_ms,
        r.data.attributes.queries@.len() == 1,
        r.data.attributes.queries@[0].data_source@ == "metrics"@,
        r.data.attributes.queries@[0].query@ == query@,
        r.data.attributes.queries@[0].name@ == "q1"@,
        r.data.attributes.formulas@.len() == 1,
        r.data.attributes.formulas@[0].formula@ == "q1"@,
{
    let mut queries: Vec<MetricQuery> = Vec::new();
    queries.push(
        MetricQuery {
            data_source: "metrics".to_owned(),
            query: query.to_owned(),
            name: "q1".to_owned(),
        },
    );
    let mut formulas: Vec<Formula> = Vec::new();
    formulas.push(Formula { formula: "q1".to_owned() });
    TimeseriesRequest {
        data: RequestData {
            kind: "timeseries_request".to_owned(),
            attributes: RequestAttributes {
                from: from_ms,
                to: to_ms,
                interval: interval_ms,
                queries,
                formulas,
            },
        },
    }
}

// ---- Response ------------------------------------------------------------------------

/// A timeseries query response.
#[derive(Debug)]
pub struct TimeseriesResponse<V> {
    pub data: Option<ResponseData<V>>,
}

/// The body of a response.
#[derive(Debug)]
pub struct ResponseData<V> {
    pub attributes: ResponseAttributes<V>,
}

/// Series metadata, the shared bucket times (epoch milliseconds), and
/// `values[i][j]`, series `i` at `times[j]` (`None` where there is no data).
#[derive(Debug)]
pub struct ResponseAttributes<V> {
    pub series: Vec<SeriesMeta>,
    pub times: Vec<i64>,
    pub values: Vec<Vec<Option<V>>>,
}

/// One returned series.
#[derive(Debug)]
pub struct SeriesMeta {
    pub group_tags: Vec<String>,
    pub query_index: Option<i64>,
    pub unit: JsonValue,
}

impl<V> Default for TimeseriesResponse<V> {
    fn default() -> (r: Self)
        ensures
            r.data is None,
    {
        TimeseriesResponse { data: None }
    }
}

// ---- Points ------------------------------------------------------------------------------

/// One flattened point: the series scope, the bucket time as RFC-3339 and
/// in milliseconds, and the value (`None` for an empty bucket, which is not
/// zero).
#[derive(Debug)]
pub struct Point<V> {
    pub scope: String,
    pub timestamp: String,
    pub timestamp_ms: i64,
    pub value: Option<V>,
}

/// The content of a [`Point`].
pub struct PointView<V> {
    pub scope: Seq<char>,
    pub timestamp: Seq<char>,
    pub timestamp_ms: int,
    pub value: Option<V>,
}

impl<V> View for Point<V> {
    type V = PointView<V>;

    open spec fn view(&self) -> PointView<V> {
        PointView {
            scope: self.scope@,
            timestamp: self.timestamp@,
            timestamp_ms: self.timestamp_ms as int,
            value: self.value,
        }
    }
}

/// `ms / 1000` rounded toward zero, as Rust divides.
pub open spec fn ms_to_secs(ms: int) -> int {
    if ms >= 0 {
        ms / 1000
    } else {
        -((-ms) / 1000)
    }
}

/// A bucket time as RFC-3339, or its milliseconds in decimal when it cannot
/// be written.
pub open spec fn ts_text(ms: int) -> Seq<char> {
    match unix_rfc3339(ms_to_secs(ms)) {
        Some(t) => t,
        None => decimal_int(ms),
    }
}

/// Writes a bucket time (epoch milliseconds).
pub fn format_ts(ms: i64) -> (r: String)
    ensures
        r@ == ts_text(ms as int),
{
    let secs: i64 = if ms >= 0 {
        ms / 1000
    } else {
        (0i128 - ((0i128 - ms as i128) / 1000)) as i64
    };
    match unix_to_rfc3339(secs) {
        Some(t) => t,
        None => string_from_chars(decimal_i64(ms).as_slice()),
    }
}

/// The scope of a series: its group tags comma-joined, `*` when ungrouped.
pub open spec fn scope_of(tags: Seq<Seq<char>>) -> Seq<char> {
    if tags.len() == 0 {
        "*"@
    } else {
        join(tags, ","@)
    }
}

/// The points of one series: one per shared time; the value is the bucket at
/// that position, `None` where the row is shorter.
pub open spec fn series_points<V>(scope: Seq<char>, times: Seq<i64>, row: Seq<Option<V>>) -> Seq<PointView<V>> {
    Seq::new(
        times.len(),
        |j: int|
            PointView {
                scope: scope,
                timestamp: ts_text(times[j] as int),
                timestamp_ms: times[j] as int,
                value: if j < row.len() {
                    row[j]
                } else {
                    None
                },
            },
    )
}

/// All points of the first `n` series: series without a value row are
/// skipped.
pub open spec fn flat_points<V>(attrs: ResponseAttributes<V>, n: int) -> Seq<PointView<V>>
    decreases n,
{
    if n <= 0 {
        Seq::empty()
    } else {
        flat_points(attrs, n - 1) + if n - 1 < attrs.values@.len() {
            series_points(
                scope_of(views(attrs.series@[n - 1].group_tags)),
                attrs.times@,
                attrs.values@[n - 1]@,
            )
        } else {
            Seq::empty()
        }
    }
}

/// The views of a list of points.
pub open spec fn point_views<V>(ps: Seq<Point<V>>) -> Seq<PointView<V>> {
    Seq::new(ps.len(), |i: int| ps[i]@)
}

/// The points of a response: none without data, else one per (series,
/// time) in series order.
pub open spec fn response_points<V>(resp: TimeseriesResponse<V>) -> Seq<PointView<V>> {
    match resp.data {
        None => Seq::empty(),
        Some(d) => flat_points(d.attributes, d.attributes.series@.len() as int),
    }
}

/// Expands the column-oriented response (series metadata, shared times,
/// `values[series][time]`) into one point per (series, bucket).
pub fn flatten<V: Copy>(resp: &TimeseriesResponse<V>) -> (r: Vec<Point<V>>)
    ensures
        point_views(r@) == response_points(*resp),
{
    let attrs = match &resp.data {
        Some(d) => &d.attributes,
        None => {
            let r: Vec<Point<V>> = Vec::new();
            assert(point_views(r@) =~= Seq::<PointView<V>>::empty());
            return r;
        },
    };
    let mut points: Vec<Point<V>> = Vec::new();
    let mut i: usize = 0;
    assert(point_views(points@) =~= flat_points(*attrs, 0));
    while i < attrs.series.len()
        invariant
            i <= attrs.series@.len(),
            point_views(points@) == flat_points(*attrs, i as int),
        decreases attrs.series@.len() - i,
    {
        let ghost base = point_views(points@);
        if i < attrs.values.len() {
            let tags = &attrs.series[i].group_tags;
            let scope: String = if tags.len() == 0 {
                "*".to_owned()
            } else {
                string_from_chars(join_strings(tags.as_slice(), ",").as_slice())
            };
            assert(scope@ == scope_of(views(*tags)));
            let row = &attrs.values[i];
            let ghost sp = series_points(scope@, attrs.times@, row@);
            let mut j: usize = 0;
            while j < attrs.times.len()
                invariant
                    j <= attrs.times@.len(),
                    point_views(points@) == base + sp.take(j as int),
                    sp == series_points(scope@, attrs.times@, row@),
                decreases attrs.times@.len() - j,
            {
                let ts_ms = attrs.times[j];
                let value: Option<V> = if j < row.len() {
                    row[j]
                } else {
                    None
                };
                let p = Point { scope: scope.clone(), timestamp: format_ts(ts_ms), timestamp_ms: ts_ms, value };
                let ghost before = points@;
                points.push(p);
                j = j + 1;
                assert(point_views(points@) =~= point_views(before).push(p@));
                assert(sp.take(j as int) =~= sp.take(j - 1).push(sp[j - 1]));
                assert(point_views(points@) =~= base + sp.take(j as int));
            }
            assert(sp.take(attrs.times@.len() as int) =~= sp);
        }
        i = i + 1;
        assert(point_views(points@) =~= flat_points(*attrs, i as int));
    }
    points
}

// ---- `metrics query` ---------------------------------------------------------------------

/// Arguments of `metrics query`.
#[derive(Debug)]
pub struct QueryArgs {
    pub query: Option<String>,
    pub from: String,
    pub to: String,
    pub interval: Option<String>,
}

/// The subcommand of `metrics`.
#[derive(Debug)]
pub enum MetricsCommand {
    Query(QueryArgs),
}

/// Arguments of `metrics`.
#[derive(Debug)]
pub struct MetricsArgs {
    pub command: MetricsCommand,
}

/// The message when no metric query is given.
pub open spec fn missing_query_message() -> Seq<char> {
    "a metric query is required (pass it as an argument or on stdin)"@
}

/// The error for a missing metric query.
pub fn missing_query() -> (r: CliError)
    ensures
        r matches CliError::Missing(m) && m@ == missing_query_message(),
{
    CliError::Missing("a metric query is required (pass it as an argument or on stdin)".to_owned())
}

/// The query given as an argument, when it is not blank.
pub fn metric_query_from_arg(cli_query: Option<String>) -> (r: Option<String>)
    ensures
        r matches Some(q) ==> cli_query == Some(q) && trim(q@).len() > 0,
        r is None ==> (cli_query matches Some(q) ==> trim(q@).len() == 0),
{
    match cli_query {
        Some(q) => {
            let t = trim_str(q.as_str());
            if t.len() > 0 {
                Some(q)
            } else {
                None
            }
        },
        None => None,
    }
}

/// The query read from standard input: its trimmed text, which must not be
/// empty.
pub fn metric_query_from_input(text: &str) -> (r: Result<String, CliError>)
    ensures
        trim(text@).len() == 0 ==> (r matches Err(CliError::Missing(m)) && m@ == missing_query_message()),
        trim(text@).len() > 0 ==> (r matches Ok(q) && q@ == trim(text@)),
{
    let t = trim_str(text);
    if t.len() == 0 {
        Err(missing_query())
    } else {
        Ok(string_from_chars(t.as_slice()))
    }
}

/// The window and bucket interval of a metrics query, in milliseconds.
#[derive(Debug)]
pub struct MetricsWindow {
    pub from_ms: i64,
    pub to_ms: i64,
    pub interval_ms: Option<i64>,
}

/// Seconds in milliseconds, when that fits an `i64`.
pub open spec fn in_ms(r: Result<int, TimeFault>) -> bool {
    r matches Ok(v) ==> i64::MIN <= v * 1000 <= i64::MAX
}

/// The inputs on which [`metrics_window_at`] runs without panicking: each
/// time and the interval must split at their last character and fit in
/// milliseconds, each checked only once the checks before it have passed.
pub open spec fn window_admissible(args: QueryArgs, now: int) -> bool {
    &&& epoch_admissible(args.from@, now)
    &&& in_ms(epoch_spec(args.from@, now))
    &&& (epoch_spec(args.from@, now) is Ok ==> {
        &&& epoch_admissible(args.to@, now)
        &&& in_ms(epoch_spec(args.to@, now))
        &&& (epoch_spec(args.to@, now) is Ok ==> (args.interval matches Some(d) ==> duration_admissible(
            d@,
        ) && in_ms(duration_spec(d@))))
    })
}

fn secs_to_ms(r: Result<i64, crate::time_spec::TimeError>) -> (m: Result<i64, CliError>)
    requires
        in_ms(int_outcome(r)),
    ensures
        r matches Ok(v) ==> m == Ok::<i64, CliError>((v * 1000) as i64),
        r matches Err(e) ==> (m matches Err(CliError::Time(x)) && x == e),
{
    match r {
        Ok(v) => Ok(v * 1000),
        Err(e) => Err(CliError::Time(e)),
    }
}

/// What [`metrics_window_at`] computes: the two times in epoch
/// milliseconds and the interval in milliseconds, or the first failure of
/// `--from`, `--to`, `--interval`, in that order.
pub open spec fn window_spec(args: QueryArgs, now: int) -> Result<(int, int, Option<int>), TimeFault> {
    match epoch_spec(args.from@, now) {
        Err(f) => Err(f),
        Ok(a) => match epoch_spec(args.to@, now) {
            Err(f) => Err(f),
            Ok(b) => match args.interval {
                None => Ok((a * 1000, b * 1000, None)),
                Some(d) => match duration_spec(d@) {
                    Err(f) => Err(f),
                    Ok(c) => Ok((a * 1000, b * 1000, Some(c * 1000))),
                },
            },
        },
    }
}

/// Whether a computed window is the one `s` describes.
pub open spec fn window_matches(r: Result<MetricsWindow, CliError>, s: Result<(int, int, Option<int>), TimeFault>) -> bool {
    match r {
        Ok(w) => s matches Ok((a, b, c)) && w.from_ms == a && w.to_ms == b && match w.interval_ms {
            Some(i) => c == Some(i as int),
            None => c is None,
        },
        Err(CliError::Time(e)) => s matches Err(f) && e@ == f,
        Err(_) => false,
    }
}

/// The window of `metrics query` at the current time `now` (seconds): the
/// two times resolved to epoch milliseconds, and the interval in
/// milliseconds. `--from` is checked first, then `--to`, then `--interval`.
pub fn metrics_window_at(args: &QueryArgs, now: i64) -> (r: Result<MetricsWindow, CliError>)
    requires
        window_admissible(*args, now as int),
    ensures
        window_matches(r, window_spec(*args, now as int)),
{
    let from_ms = secs_to_ms(to_epoch_secs_at(args.from.as_str(), now))?;
    let to_ms = secs_to_ms(to_epoch_secs_at(args.to.as_str(), now))?;
    let interval_ms = match &args.interval {
        Some(d) => Some(secs_to_ms(duration_secs(d.as_str()))?),
        None => None,
    };
    Ok(MetricsWindow { from_ms, to_ms, interval_ms })
}

/// The window of `metrics query` against the clock. Nothing is promised of
/// the clock; the result is [`metrics_window_at`] at the time read, or
/// `None` when the arguments cannot be resolved without overflow at that
/// time.
pub fn metrics_window(args: &QueryArgs) -> (r: Option<Result<MetricsWindow, CliError>>)
    ensures
        exists|now: int|
            {
                &&& clock_range(now)
                &&& #[trigger] window_admissible(*args, now) == (r is Some)
                &&& (r matches Some(x) ==> window_matches(x, window_spec(*args, now)))
            },
{
    let now = now_unix_secs();
    if !window_input_admissible(args, now) {
        let r: Option<Result<MetricsWindow, CliError>> = None;
        assert(window_admissible(*args, now as int) == (r is Some));
        return r;
    }
    let x = metrics_window_at(args, now);
    assert(window_admissible(*args, now as int) && window_matches(x, window_spec(*args, now as int)));
    assert(window_admissible(*args, now as int) == (Some(x) is Some));
    Some(x)
}

fn fits_ms(r: &Result<i64, crate::time_spec::TimeError>) -> (b: bool)
    ensures
        b == in_ms(int_outcome(*r)),
{
    match r {
        Ok(v) => {
            let p = *v as i128 * 1000;
            !(p < i64::MIN as i128 || p > i64::MAX as i128)
        },
        Err(_) => true,
    }
}

/// Whether [`metrics_window_at`] may be called with these arguments at
/// `now`.
pub fn window_input_admissible(args: &QueryArgs, now: i64) -> (b: bool)
    ensures
        b == window_admissible(*args, now as int),
{
    if !epoch_input_admissible(args.from.as_str(), now) {
        return false;
    }
    let f = to_epoch_secs_at(args.from.as_str(), now);
    if !fits_ms(&f) {
        return false;
    }
    if f.is_err() {
        return true;
    }
    if !epoch_input_admissible(args.to.as_str(), now) {
        return false;
    }
    let t = to_epoch_secs_at(args.to.as_str(), now);
    if !fits_ms(&t) {
        return false;
    }
    if t.is_err() {
        return true;
    }
    match &args.interval {
        Some(d) => {
            if !duration_input_admissible(d.as_str()) {
                return false;
            }
            let dv = duration_secs(d.as_str());
            fits_ms(&dv)
        },
        None => true,
    }
}

} // verus!
