//! `logs aggregate`: turning `--measure`/`--group-by`/`--interval` into an
//! aggregation request, and flattening timeseries buckets into rows.

use vstd::prelude::*;
use crate::json::{JsonSpec, JsonValue, get_spec, json_text};
use crate::logs::{AggregateRequest, Bucket, Compute, GroupBy, SearchFilter, opt_view, tier_named, tier_error};
use crate::logs_cli::{
    AggregateArgs, CliError, clone_list, comma_list, parse_indexes, storage_of, time_of, views,
};
use crate::text::{
    chars_of, decimal, decimal_u64, find_char, is_first_index, has_char, push_all, push_str,
    slice_chars, string_from_chars, trim, trim_str,
};
use crate::time_spec::{
    duration_input_admissible, normalize, time_input_admissible, duration_admissible, duration_secs, duration_spec, normalize_spec, relative_admissible,
    TimeFault,
};

verus! {

// ---- Measures -----------------------------------------------------------------------

/// What a `--measure` denotes: `count`, or `<agg>:<facet>` split at the first
/// colon; `None` for anything else.
pub open spec fn measure_spec(raw: Seq<char>) -> Option<(Seq<char>, Option<Seq<char>>)> {
    if raw == "count"@ {
        Some(("count"@, None))
    } else if has_char(raw, ':') {
        let i = choose|i: int| is_first_index(raw, ':', i);
        Some((raw.take(i), Some(raw.skip(i + 1))))
    } else {
        None
    }
}

/// The message for a bad `--measure`.
pub open spec fn measure_error(raw: Seq<char>) -> Seq<char> {
    "invalid measure '"@ + raw + "' (use 'count' or '<agg>:<facet>')"@
}

proof fn lemma_first_index_unique(s: Seq<char>, c: char, i: int, j: int)
    requires
        is_first_index(s, c, i),
        is_first_index(s, c, j),
    ensures
        i == j,
{
}

/// Parses one `--measure`.
pub fn parse_measure(raw: &str) -> (r: Result<Compute, CliError>)
    ensures
        measure_spec(raw@) matches Some((agg, metric)) ==> (r matches Ok(c) && c.aggregation@ == agg
            && opt_view(c.metric) == metric && c.kind is None && c.interval is None),
        measure_spec(raw@) is None ==> (r matches Err(CliError::Measure(m)) && m@ == measure_error(
            raw@,
        )),
{
    let v = chars_of(raw);
    if crate::text::chars_eq_str(v.as_slice(), "count") {
        return Ok(Compute { aggregation: "count".to_owned(), metric: None, kind: None, interval: None });
    }
    match find_char(v.as_slice(), ':') {
        Some(i) => {
            assert(is_first_index(v@, ':', i as int));
            assert(i < v.len());
            proof {
                let j = choose|j: int| is_first_index(raw@, ':', j);
                lemma_first_index_unique(raw@, ':', i as int, j);
            }
            let agg = slice_chars(v.as_slice(), 0, i);
            let metric = slice_chars(v.as_slice(), i + 1, v.len());
            assert(agg@ =~= raw@.take(i as int));
            assert(metric@ =~= raw@.skip(i + 1));
            Ok(
                Compute {
                    aggregation: string_from_chars(agg.as_slice()),
                    metric: Some(string_from_chars(metric.as_slice())),
                    kind: None,
                    interval: None,
                },
            )
        },
        None => {
            let mut m: Vec<char> = Vec::new();
            push_str(&mut m, "invalid measure '");
            push_str(&mut m, raw);
            push_str(&mut m, "' (use 'count' or '<agg>:<facet>')");
            Err(CliError::Measure(string_from_chars(m.as_slice())))
        },
    }
}

// ---- Timeseries rows --------------------------------------------------------------------

/// One flattened timeseries row: the group, the measure label, the bucket
/// start time and the value (`null` where the bucket has no data).
#[derive(Debug)]
pub struct TsRow {
    pub by: JsonValue,
    pub measure: String,
    pub time: String,
    pub value: JsonValue,
}

/// The mathematical content of a [`TsRow`].
pub struct TsRowView {
    pub by: JsonSpec,
    pub measure: Seq<char>,
    pub time: Seq<char>,
    pub value: JsonSpec,
}

impl View for TsRow {
    type V = TsRowView;

    open spec fn view(&self) -> TsRowView {
        TsRowView { by: self.by@, measure: self.measure@, time: self.time@, value: self.value@ }
    }
}

/// The key of the `i`-th compute in a bucket: `c0`, `c1`, …
pub open spec fn compute_key(i: nat) -> Seq<char> {
    seq!['c'] + decimal(i)
}

/// The points of the `i`-th measure in a bucket: the array under its compute
/// key, or nothing when the key is absent or not an array.
pub open spec fn measure_points(computes: JsonSpec, i: nat) -> Seq<JsonSpec> {
    match get_spec(computes, compute_key(i)) {
        Some(JsonSpec::Array(xs)) => xs,
        _ => Seq::empty(),
    }
}

/// The row of one point: its `time` string (empty when absent or not a
/// string) and its `value` (`null` when absent).
pub open spec fn point_row(by: JsonSpec, measure: Seq<char>, p: JsonSpec) -> TsRowView {
    TsRowView {
        by: by,
        measure: measure,
        time: match get_spec(p, "time"@) {
            Some(JsonSpec::Str(t)) => t,
            _ => Seq::empty(),
        },
        value: match get_spec(p, "value"@) {
            Some(v) => v,
            None => JsonSpec::Null,
        },
    }
}

/// The rows of a list of points.
pub open spec fn points_rows(by: JsonSpec, measure: Seq<char>, pts: Seq<JsonSpec>) -> Seq<TsRowView>
    decreases pts.len(),
{
    if pts.len() == 0 {
        Seq::empty()
    } else {
        points_rows(by, measure, pts.drop_last()).push(point_row(by, measure, pts.last()))
    }
}

/// The rows of one bucket for its first `n` measures.
pub open spec fn bucket_rows(b: (JsonSpec, JsonSpec), measures: Seq<Seq<char>>, n: nat) -> Seq<TsRowView>
    decreases n,
{
    if n == 0 {
        Seq::empty()
    } else {
        bucket_rows(b, measures, (n - 1) as nat) + points_rows(
            b.0,
            measures[n - 1],
            measure_points(b.1, (n - 1) as nat),
        )
    }
}

/// The `(by, computes)` of each bucket.
pub open spec fn bucket_views(bs: Seq<Bucket>) -> Seq<(JsonSpec, JsonSpec)> {
    Seq::new(bs.len(), |i: int| (bs[i].by@, bs[i].computes@))
}

/// All rows: for each bucket, for each measure in order, for each point.
pub open spec fn ts_rows(bs: Seq<(JsonSpec, JsonSpec)>, measures: Seq<Seq<char>>) -> Seq<TsRowView>
    decreases bs.len(),
{
    if bs.len() == 0 {
        Seq::empty()
    } else {
        ts_rows(bs.drop_last(), measures) + bucket_rows(bs.last(), measures, measures.len())
    }
}

/// The views of a list of rows.
pub open spec fn row_views(rows: Seq<TsRow>) -> Seq<TsRowView> {
    Seq::new(rows.len(), |i: int| rows[i]@)
}

/// The key `c<i>`.
fn compute_key_string(i: usize) -> (r: String)
    ensures
        r@ == compute_key(i as nat),
{
    let mut v: Vec<char> = Vec::new();
    v.push('c');
    let d = decimal_u64(i as u64);
    push_all(&mut v, d.as_slice());
    assert(v@ =~= compute_key(i as nat));
    string_from_chars(v.as_slice())
}

fn row_of_point(by: &JsonValue, measure: &String, p: &JsonValue) -> (r: TsRow)
    ensures
        r@ == point_row(by@, measure@, p@),
{
    proof {
        reveal_strlit("time");
        reveal_strlit("value");
    }
    let time = match p.get("time") {
        Some(t) => match t.as_str() {
            Some(s) => s.clone(),
            None => String::new(),
        },
        None => String::new(),
    };
    let value = match p.get("value") {
        Some(v) => v.copy(),
        None => JsonValue::Null,
    };
    TsRow { by: by.copy(), measure: measure.clone(), time, value }
}

/// Expands each bucket's per-measure timeseries (`computes.c<i>`, an array
/// of `{time, value}`) into one row per (group, measure, point). Compute keys
/// are `c0`, `c1`, … in measure order.
pub fn flatten_timeseries(buckets: &Vec<Bucket>, measures: &Vec<String>) -> (r: Vec<TsRow>)
    ensures
        row_views(r@) == ts_rows(bucket_views(buckets@), views(*measures)),
{
    let ghost bv = bucket_views(buckets@);
    let ghost ms = views(*measures);
    let mut rows: Vec<TsRow> = Vec::new();
    let mut bi: usize = 0;
    assert(bv.take(0) =~= Seq::<(JsonSpec, JsonSpec)>::empty());
    assert(row_views(rows@) =~= Seq::<TsRowView>::empty());
    while bi < buckets.len()
        invariant
            bi <= buckets@.len(),
            bv == bucket_views(buckets@),
            ms == views(*measures),
            row_views(rows@) == ts_rows(bv.take(bi as int), ms),
        decreases buckets@.len() - bi,
    {
        let b = &buckets[bi];
        let ghost base = row_views(rows@);
        assert(bv.take(bi + 1).drop_last() =~= bv.take(bi as int));
        assert(bv[bi as int] == (b.by@, b.computes@));
        let mut mi: usize = 0;
        while mi < measures.len()
            invariant
                mi <= measures@.len(),
                ms == views(*measures),
                bv == bucket_views(buckets@),
                bi < buckets@.len(),
                *b == buckets@[bi as int],
                row_views(rows@) == base + bucket_rows((b.by@, b.computes@), ms, mi as nat),
            decreases measures@.len() - mi,
        {
            let key = compute_key_string(mi);
            let ghost mid = row_views(rows@);
            match b.computes.get(key.as_str()) {
                Some(pts_v) => match pts_v.as_array() {
                    Some(pts) => {
                        proof {
                            crate::json::lemma_items_view(pts@);
                        }
                        let ghost pv = crate::json::items_view(pts@);
                        assert(measure_points(b.computes@, mi as nat) == pv);
                        let mut k: usize = 0;
                        assert(pv.take(0) =~= Seq::<JsonSpec>::empty());
                        assert(row_views(rows@) =~= mid + points_rows(b.by@, ms[mi as int], pv.take(0)));
                        while k < pts.len()
                            invariant
                                k <= pts@.len(),
                                pv.len() == pts@.len(),
                                forall|q: int| 0 <= q < pts@.len() ==> #[trigger] pv[q] == pts@[q]@,
                                mi < measures@.len(),
                                ms == views(*measures),
                                row_views(rows@) == mid + points_rows(b.by@, ms[mi as int], pv.take(k as int)),
                            decreases pts@.len() - k,
                        {
                            let row = row_of_point(&b.by, &measures[mi], &pts[k]);
                            let ghost before = rows@;
                            rows.push(row);
                            assert(pv.take(k + 1).drop_last() =~= pv.take(k as int));
                            k = k + 1;
                            assert(row_views(rows@) =~= row_views(before).push(row@));
                            assert(row_views(rows@) =~= mid + points_rows(b.by@, ms[mi as int], pv.take(k as int)));
                        }
                        assert(pv.take(pts@.len() as int) =~= pv);
                    },
                    None => {
                        assert(measure_points(b.computes@, mi as nat) =~= Seq::<JsonSpec>::empty());
                        assert(row_views(rows@) =~= mid + points_rows(b.by@, ms[mi as int], Seq::<JsonSpec>::empty()));
                    },
                },
                None => {
                    assert(measure_points(b.computes@, mi as nat) =~= Seq::<JsonSpec>::empty());
                    assert(row_views(rows@) =~= mid + points_rows(b.by@, ms[mi as int], Seq::<JsonSpec>::empty()));
                },
            }
            mi = mi + 1;
            assert(row_views(rows@) =~= base + bucket_rows((b.by@, b.computes@), ms, mi as nat));
        }
        bi = bi + 1;
        assert(ms.len() == measures@.len());
        assert(row_views(rows@) =~= ts_rows(bv.take(bi as int), ms));
    }
    assert(bv.take(buckets@.len() as int) =~= bv);
    rows
}

/// The text of a value in the aggregate table: `—` for `null`, the JSON
/// text otherwise (numbers as written).
pub open spec fn value_text(v: JsonSpec) -> Seq<char> {
    match v {
        JsonSpec::Null => "—"@,
        _ => json_text(v),
    }
}

/// Renders a value for the table's value column.
pub fn value_to_string(v: &JsonValue) -> (r: String)
    ensures
        r@ == value_text(v@),
{
    if v.is_null() {
        "—".to_owned()
    } else {
        v.to_text()
    }
}


/// The header of the bucket table.
pub open spec fn bucket_header() -> Seq<Seq<char>> {
    seq!["group"@, "computes"@]
}

/// The header of the bucket table.
pub fn bucket_table_header() -> (r: Vec<String>)
    ensures
        views(r) == bucket_header(),
{
    let mut r: Vec<String> = Vec::new();
    r.push("group".to_owned());
    r.push("computes".to_owned());
    assert(views(r) =~= bucket_header());
    r
}

/// A row of the bucket table: the group and the computes, as JSON text.
pub fn bucket_table_row(b: &Bucket) -> (r: Vec<String>)
    ensures
        views(r) == seq![json_text(b.by@), json_text(b.computes@)],
{
    let mut r: Vec<String> = Vec::new();
    r.push(b.by.to_text());
    r.push(b.computes.to_text());
    assert(views(r) =~= seq![json_text(b.by@), json_text(b.computes@)]);
    r
}

/// The header of the timeseries table.
pub open spec fn ts_header() -> Seq<Seq<char>> {
    seq!["group"@, "measure"@, "time"@, "value"@]
}

/// The header of the timeseries table.
pub fn ts_table_header() -> (r: Vec<String>)
    ensures
        views(r) == ts_header(),
{
    let mut r: Vec<String> = Vec::new();
    r.push("group".to_owned());
    r.push("measure".to_owned());
    r.push("time".to_owned());
    r.push("value".to_owned());
    assert(views(r) =~= ts_header());
    r
}

/// A row of the timeseries table: the group as JSON text, the measure, the
/// time and the value text.
pub fn ts_table_row(row: &TsRow) -> (r: Vec<String>)
    ensures
        views(r) == seq![json_text(row.by@), row.measure@, row.time@, value_text(row.value@)],
{
    let mut r: Vec<String> = Vec::new();
    r.push(row.by.to_text());
    r.push(row.measure.clone());
    r.push(row.time.clone());
    r.push(value_to_string(&row.value));
    assert(views(r) =~= seq![json_text(row.by@), row.measure@, row.time@, value_text(row.value@)]);
    r
}

// ---- The request --------------------------------------------------------------------

/// The content of a [`Compute`].
pub struct ComputeView {
    pub aggregation: Seq<char>,
    pub metric: Option<Seq<char>>,
    pub kind: Option<Seq<char>>,
    pub interval: Option<Seq<char>>,
}

impl View for Compute {
    type V = ComputeView;

    open spec fn view(&self) -> ComputeView {
        ComputeView {
            aggregation: self.aggregation@,
            metric: opt_view(self.metric),
            kind: opt_view(self.kind),
            interval: opt_view(self.interval),
        }
    }
}

/// The compute a well-formed measure asks for; with a bucket interval it is
/// a `timeseries` compute over that interval.
pub open spec fn compute_for(raw: Seq<char>, interval: Option<Seq<char>>) -> ComputeView {
    let (agg, metric) = measure_spec(raw).unwrap();
    ComputeView {
        aggregation: agg,
        metric: metric,
        kind: if interval is Some {
            Some("timeseries"@)
        } else {
            None
        },
        interval: interval,
    }
}

/// The measures requested: those given, or `count` when none is.
pub open spec fn measure_labels(given: Seq<Seq<char>>) -> Seq<Seq<char>> {
    if given.len() == 0 {
        seq!["count"@]
    } else {
        given
    }
}

/// The position of the first measure that does not parse.
pub open spec fn first_bad_measure(given: Seq<Seq<char>>, i: int) -> bool {
    &&& 0 <= i < given.len()
    &&& measure_spec(given[i]) is None
    &&& forall|k: int| 0 <= k < i ==> measure_spec(#[trigger] given[k]) is Some
}

/// The bucket interval: the trimmed `--interval` text.
pub open spec fn interval_spec(raw: Option<Seq<char>>) -> Option<Seq<char>> {
    match raw {
        Some(d) => Some(trim(d)),
        None => None,
    }
}

/// Everything `logs aggregate` derives before sending its request.
#[derive(Debug)]
pub struct AggregatePlan {
    pub request: AggregateRequest,
    pub interval: Option<String>,
    pub labels: Vec<String>,
}

/// The views of a list of computes.
pub open spec fn compute_views(cs: Seq<Compute>) -> Seq<ComputeView> {
    Seq::new(cs.len(), |i: int| cs[i]@)
}

/// The arguments are checked in this order: storage tier, `--from`,
/// `--to`, `--interval`, then each `--measure`.
pub open spec fn aggregate_args_ok(args: AggregateArgs) -> bool {
    &&& tier_named(args.storage@) is Some
    &&& normalize_spec(args.from@) is Ok
    &&& normalize_spec(args.to@) is Ok
    &&& (args.interval matches Some(d) ==> duration_spec(d@) is Ok)
    &&& forall|i: int| 0 <= i < args.measure@.len() ==> measure_spec(#[trigger] args.measure@[i]@) is Some
}

/// What [`plan_aggregate`] gives: the first failing check (storage tier,
/// `--from`, `--to`, `--interval`, then each `--measure`) as its error;
/// otherwise the request with one compute per measure label, the group-bys,
/// the normalized window, the query, the indexes and the tier.
pub open spec fn aggregate_outcome(args: AggregateArgs, r: Result<AggregatePlan, CliError>) -> bool {
    &&& (tier_named(args.storage@) is None ==> (r matches Err(CliError::Storage(m)) && m@
        == tier_error(args.storage@)))
    &&& (tier_named(args.storage@) is Some ==> (normalize_spec(args.from@) matches Err(f) ==> (
    r matches Err(CliError::Time(e)) && e@ == f)))
    &&& (tier_named(args.storage@) is Some && normalize_spec(args.from@) is Ok ==> (normalize_spec(
        args.to@,
    ) matches Err(f) ==> (r matches Err(CliError::Time(e)) && e@ == f)))
    &&& (tier_named(args.storage@) is Some && normalize_spec(args.from@) is Ok && normalize_spec(
        args.to@,
    ) is Ok ==> (args.interval matches Some(d) ==> (duration_spec(d@) matches Err(f) ==> (
    r matches Err(CliError::Time(e)) && e@ == f))))
    &&& (forall|i: int|
        #![trigger first_bad_measure(views(args.measure), i)]
        tier_named(args.storage@) is Some && normalize_spec(args.from@) is Ok && normalize_spec(
            args.to@,
        ) is Ok && (args.interval matches Some(d) ==> duration_spec(d@) is Ok) && first_bad_measure(
            views(args.measure),
            i,
        ) ==> (r matches Err(CliError::Measure(m)) && m@ == measure_error(args.measure@[i]@)))
    &&& (r is Ok <==> aggregate_args_ok(args))
    &&& (r matches Ok(p) ==> {
        let given = views(args.measure);
        let iv = interval_spec(opt_view(args.interval));
        &&& opt_view(p.interval) == iv
        &&& views(p.labels) == measure_labels(given)
        &&& compute_views(p.request.compute@).len() == measure_labels(given).len()
        &&& forall|i: int|
            0 <= i < measure_labels(given).len() ==> #[trigger] compute_views(p.request.compute@)[i]
                == compute_for(measure_labels(given)[i], iv)
        &&& p.request.group_by@.len() == args.group_by@.len()
        &&& forall|i: int|
            0 <= i < args.group_by@.len() ==> (#[trigger] p.request.group_by@[i]).facet@
                == args.group_by@[i]@ && p.request.group_by@[i].limit == Some(args.group_limit)
        &&& normalize_spec(args.from@) == Ok::<Seq<char>, TimeFault>(
            opt_view(p.request.filter.from).unwrap(),
        )
        &&& p.request.filter.from is Some
        &&& normalize_spec(args.to@) == Ok::<Seq<char>, TimeFault>(opt_view(p.request.filter.to).unwrap())
        &&& p.request.filter.to is Some
        &&& p.request.filter.query == args.query
        &&& (args.index matches Some(s) ==> (p.request.filter.indexes matches Some(v) && views(v)
            == comma_list(s@)))
        &&& (args.index is None ==> p.request.filter.indexes is None)
        &&& tier_named(args.storage@) == p.request.filter.storage_tier
        &&& p.request.options is None
    })
}

/// The request of `logs aggregate` asks for one compute per measure (`count`
/// when none is given). With `--interval` every compute is a `timeseries`
/// over the trimmed interval; without it no compute has a type or an
/// interval, so each group gets a single total.
pub proof fn aggregate_interval_makes_timeseries(args: AggregateArgs, r: Result<AggregatePlan, CliError>)
    requires
        aggregate_outcome(args, r),
    ensures
        r matches Ok(p) ==> p.request.compute@.len() == (if args.measure@.len() == 0 {
            1
        } else {
            args.measure@.len()
        }),
        r matches Ok(p) ==> forall|i: int|
            0 <= i < p.request.compute@.len() ==> match args.interval {
                Some(d) => {
                    &&& (#[trigger] p.request.compute@[i]).kind matches Some(k) && k@ == "timeseries"@
                    &&& p.request.compute@[i].interval matches Some(iv) && iv@ == trim(d@)
                },
                None => {
                    &&& (#[trigger] p.request.compute@[i]).kind is None
                    &&& p.request.compute@[i].interval is None
                },
            },
        r matches Ok(p) ==> (args.measure@.len() == 0 ==> p.request.compute@[0].aggregation@ == "count"@),
{
    if let Ok(p) = r {
        let given = views(args.measure);
        let cs = p.request.compute@;
        assert(compute_views(cs).len() == cs.len());
        assert forall|i: int| 0 <= i < cs.len() implies match args.interval {
            Some(d) => {
                &&& (#[trigger] cs[i]).kind matches Some(k) && k@ == "timeseries"@
                &&& cs[i].interval matches Some(iv) && iv@ == trim(d@)
            },
            None => {
                &&& (#[trigger] cs[i]).kind is None
                &&& cs[i].interval is None
            },
        } by {
            assert(compute_views(cs)[i] == cs[i]@);
            assert(compute_views(cs)[i] == compute_for(measure_labels(given)[i], interval_spec(
                opt_view(args.interval),
            )));
        }
        if args.measure@.len() == 0 {
            assert(compute_views(cs)[0] == cs[0]@);
            assert(compute_views(cs)[0] == compute_for(measure_labels(given)[0], interval_spec(
                opt_view(args.interval),
            )));
            reveal_strlit("count");
            assert(measure_labels(given)[0] == "count"@);
            assert(measure_spec("count"@) == Some(("count"@, Option::<Seq<char>>::None)));
        }
    }
}

/// The inputs on which `logs aggregate` runs without panicking: each time
/// and the interval must split at their last character, each checked only
/// once the checks before it have passed.
pub open spec fn aggregate_admissible(args: AggregateArgs) -> bool {
    tier_named(args.storage@) is Some ==> {
        &&& relative_admissible(trim(args.from@))
        &&& (normalize_spec(args.from@) is Ok ==> {
            &&& relative_admissible(trim(args.to@))
            &&& (normalize_spec(args.to@) is Ok ==> (args.interval matches Some(d) ==> duration_admissible(
                d@,
            )))
        })
    }
}

/// Builds the aggregation request of `logs aggregate`.
pub fn plan_aggregate(args: AggregateArgs) -> (r: Result<AggregatePlan, CliError>)
    requires
        aggregate_admissible(args),
    ensures
        aggregate_outcome(args, r),
{
    let storage = storage_of(args.storage.as_str())?;
    let from = time_of(args.from.as_str())?;
    let to = time_of(args.to.as_str())?;
    let interval: Option<String> = match &args.interval {
        Some(d) => {
            match duration_secs(d.as_str()) {
                Ok(_) => {},
                Err(e) => {
                    return Err(CliError::Time(e));
                },
            }
            let t = trim_str(d.as_str());
            Some(string_from_chars(t.as_slice()))
        },
        None => None,
    };
    let ghost iv = interval_spec(opt_view(args.interval));
    let ghost given = views(args.measure);
    let labels: Vec<String> = if args.measure.len() == 0 {
        let mut l: Vec<String> = Vec::new();
        l.push("count".to_owned());
        assert(views(l) =~= measure_labels(given));
        l
    } else {
        let l = clone_list(&args.measure);
        l
    };
    let mut computes: Vec<Compute> = Vec::new();
    let mut i: usize = 0;
    while i < labels.len()
        invariant
            i <= labels@.len(),
            views(labels) == measure_labels(given),
            given == views(args.measure),
            args.measure@.len() > 0 ==> views(labels) == given,
            args.measure@.len() == 0 ==> views(labels) == seq!["count"@],
            opt_view(interval) == iv,
            computes@.len() == i,
            forall|k: int| 0 <= k < i ==> #[trigger] compute_views(computes@)[k] == compute_for(views(labels)[k], iv),
            forall|k: int| 0 <= k < i ==> measure_spec(#[trigger] views(labels)[k]) is Some,
            tier_named(args.storage@) is Some,
            normalize_spec(args.from@) is Ok,
            normalize_spec(args.to@) is Ok,
            args.interval matches Some(d) ==> duration_spec(d@) is Ok,
        decreases labels@.len() - i,
    {
        assert(views(labels)[i as int] == labels@[i as int]@);
        let c = match parse_measure(labels[i].as_str()) {
            Ok(c) => c,
            Err(e) => {
                proof {
                    assert(args.measure@.len() > 0) by {
                        if args.measure@.len() == 0 {
                            reveal_strlit("count");
                            assert(measure_spec("count"@) is Some);
                        }
                    }
                    assert(first_bad_measure(given, i as int));
                    assert forall|j: int| first_bad_measure(given, j) implies j == i by {
                        if j < i {
                            assert(measure_spec(views(labels)[j]) is Some);
                        } else if j > i {
                            assert(measure_spec(given[i as int]) is Some);
                        }
                    }
                }
                return Err(e);
            },
        };
        let c2 = match &interval {
            Some(iv_s) => Compute {
                aggregation: c.aggregation,
                metric: c.metric,
                kind: Some("timeseries".to_owned()),
                interval: Some(iv_s.clone()),
            },
            None => c,
        };
        assert(c2@ == compute_for(views(labels)[i as int], iv)) by {
            let (agg, metric) = measure_spec(views(labels)[i as int]).unwrap();
            assert(c.aggregation@ == agg);
            reveal_strlit("timeseries");
        }
        let ghost before = computes@;
        computes.push(c2);
        assert(compute_views(computes@)[i as int] == c2@);
        assert forall|k: int| 0 <= k < i + 1 implies #[trigger] compute_views(computes@)[k] == compute_for(views(labels)[k], iv) by {
            if k < i {
                assert(computes@[k] == before[k]);
                assert(compute_views(before)[k] == before[k]@);
            }
        }
        i = i + 1;
    }
    proof {
        if args.measure@.len() > 0 {
            assert forall|k: int| 0 <= k < args.measure@.len() implies measure_spec(#[trigger] args.measure@[k]@) is Some by {
                assert(views(labels)[k] == args.measure@[k]@);
            }
        }
    }
    let mut group_by: Vec<GroupBy> = Vec::new();
    let mut g: usize = 0;
    while g < args.group_by.len()
        invariant
            g <= args.group_by@.len(),
            group_by@.len() == g,
            forall|k: int| 0 <= k < g ==> (#[trigger] group_by@[k]).facet@ == args.group_by@[k]@
                && group_by@[k].limit == Some(args.group_limit),
        decreases args.group_by@.len() - g,
    {
        group_by.push(GroupBy { facet: args.group_by[g].clone(), limit: Some(args.group_limit) });
        g = g + 1;
    }
    let request = AggregateRequest {
        filter: SearchFilter {
            from: Some(from),
            to: Some(to),
            query: args.query,
            indexes: parse_indexes(args.index),
            storage_tier: Some(storage),
        },
        compute: computes,
        group_by,
        options: None,
    };
    Ok(AggregatePlan { request, interval, labels })
}

/// Whether `logs aggregate` runs on these arguments without panicking.
pub fn aggregate_input_admissible(args: &AggregateArgs) -> (b: bool)
    ensures
        b == aggregate_admissible(*args),
{
    if storage_of(args.storage.as_str()).is_err() {
        return true;
    }
    if !time_input_admissible(args.from.as_str()) {
        return false;
    }
    if normalize(args.from.as_str()).is_err() {
        return true;
    }
    if !time_input_admissible(args.to.as_str()) {
        return false;
    }
    if normalize(args.to.as_str()).is_err() {
        return true;
    }
    match &args.interval {
        Some(d) => duration_input_admissible(d.as_str()),
        None => true,
    }
}

/// The aggregation request of `logs aggregate`, or `None` on the arguments
/// on which the command panics (a time or interval that does not split at
/// its last character, once the checks before it have passed).
pub fn plan_aggregate_checked(args: AggregateArgs) -> (r: Option<Result<AggregatePlan, CliError>>)
    ensures
        r is None <==> !aggregate_admissible(args),
        r matches Some(x) ==> aggregate_outcome(args, x),
{
    if aggregate_input_admissible(&args) {
        Some(plan_aggregate(args))
    } else {
        None
    }
}

} // verus!
