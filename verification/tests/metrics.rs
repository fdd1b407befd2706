use ddog::json::JsonValue;
use ddog::metrics::{
    flatten, format_ts, metric_query_from_arg, metric_query_from_input, metrics_window_at,
    timeseries_request, QueryArgs, ResponseAttributes, ResponseData, SeriesMeta,
    TimeseriesResponse, TIMESERIES_PATH,
};

fn response_from(json: &str) -> TimeseriesResponse<f64> {
    let v: serde_json::Value = serde_json::from_str(json).unwrap();
    let data = v.get("data").map(|d| {
        let a = d.get("attributes").cloned().unwrap_or(serde_json::Value::Null);
        let series = a
            .get("series")
            .and_then(|s| s.as_array())
            .map(|xs| {
                xs.iter()
                    .map(|s| SeriesMeta {
                        group_tags: s
                            .get("group_tags")
                            .and_then(|t| t.as_array())
                            .map(|ts| ts.iter().map(|t| t.as_str().unwrap().to_string()).collect())
                            .unwrap_or_default(),
                        query_index: s.get("query_index").and_then(|q| q.as_i64()),
                        unit: JsonValue::Null,
                    })
                    .collect()
            })
            .unwrap_or_default();
        let times = a
            .get("times")
            .and_then(|t| t.as_array())
            .map(|ts| ts.iter().map(|t| t.as_i64().unwrap()).collect())
            .unwrap_or_default();
        let values = a
            .get("values")
            .and_then(|t| t.as_array())
            .map(|rows| {
                rows.iter()
                    .map(|r| r.as_array().unwrap().iter().map(|x| x.as_f64()).collect())
                    .collect()
            })
            .unwrap_or_default();
        ResponseData { attributes: ResponseAttributes { series, times, values } }
    });
    TimeseriesResponse { data }
}

#[test]
fn request_serializes_to_v2_shape() {
    let req = timeseries_request(
        1_747_000_000_000,
        1_747_864_000_000,
        Some(86_400_000),
        "sum:bridgeft.import.records{*} by {feed}",
    );
    assert_eq!(req.data.kind, "timeseries_request");
    assert_eq!(req.data.attributes.from, 1_747_000_000_000i64);
    assert_eq!(req.data.attributes.to, 1_747_864_000_000i64);
    assert_eq!(req.data.attributes.interval, Some(86_400_000));
    assert_eq!(req.data.attributes.queries[0].data_source, "metrics");
    assert_eq!(req.data.attributes.queries[0].query, "sum:bridgeft.import.records{*} by {feed}");
    assert_eq!(req.data.attributes.queries[0].name, "q1");
    assert_eq!(req.data.attributes.formulas[0].formula, "q1");
    assert_eq!(TIMESERIES_PATH, "api/v2/query/timeseries");
}

#[test]
fn parses_timeseries_response() {
    let raw = r#"{
        "data": {
            "type": "timeseries_response",
            "attributes": {
                "series": [
                    {"group_tags": ["feed:positions"], "query_index": 0},
                    {"group_tags": ["feed:account_balances"], "query_index": 0}
                ],
                "times": [1747000000000, 1747086400000, 1747172800000],
                "values": [
                    [2901, 2950, null],
                    [1483, 1490, 0]
                ]
            }
        }
    }"#;
    let resp = response_from(raw);
    let attrs = resp.data.unwrap().attributes;
    assert_eq!(attrs.series.len(), 2);
    assert_eq!(attrs.series[0].group_tags, vec!["feed:positions"]);
    assert_eq!(attrs.times.len(), 3);
    assert_eq!(attrs.values[0][0], Some(2901.0));
    assert_eq!(attrs.values[0][2], None); // null preserved (≠ zero)
    assert_eq!(attrs.values[1][2], Some(0.0)); // real zero stays zero
}

#[test]
fn flatten_zips_series_with_shared_times() {
    let resp = response_from(
        r#"{"data":{"attributes":{
            "series":[
                {"group_tags":["feed:positions"]},
                {"group_tags":["feed:account_balances"]}
            ],
            "times":[1747000000000,1747086400000],
            "values":[[2901,null],[1483,1490]]
        }}}"#,
    );
    let pts = flatten(&resp);
    assert_eq!(pts.len(), 4);
    assert_eq!(pts[0].scope, "feed:positions");
    assert_eq!(pts[0].value, Some(2901.0));
    assert_eq!(pts[0].timestamp_ms, 1747000000000);
    assert!(pts[0].timestamp.contains('T'));
    assert_eq!(pts[1].value, None); // null bucket stays null
    assert_eq!(pts[2].scope, "feed:account_balances");
    assert_eq!(pts[3].value, Some(1490.0));
}

#[test]
fn flatten_defaults_scope_when_ungrouped() {
    let resp = response_from(
        r#"{"data":{"attributes":{
            "series":[{"group_tags":[]}],
            "times":[1747000000000],
            "values":[[22]]
        }}}"#,
    );
    let pts = flatten(&resp);
    assert_eq!(pts[0].scope, "*");
    assert_eq!(pts[0].value, Some(22.0));
}

#[test]
fn flatten_handles_empty_response() {
    assert!(flatten(&TimeseriesResponse::<f64>::default()).is_empty());
}

#[test]
fn flatten_joins_tags_and_skips_series_without_values() {
    let resp = response_from(
        r#"{"data":{"attributes":{
            "series":[{"group_tags":["a:1","b:2"]},{"group_tags":["c:3"]}],
            "times":[0, 1000],
            "values":[[1.5]]
        }}}"#,
    );
    let pts = flatten(&resp);
    assert_eq!(pts.len(), 2);
    assert_eq!(pts[0].scope, "a:1,b:2");
    assert_eq!(pts[0].value, Some(1.5));
    assert_eq!(pts[1].value, None);
    assert_eq!(pts[1].timestamp, "1970-01-01T00:00:01Z");
}

#[test]
fn format_ts_writes_rfc3339_seconds() {
    assert_eq!(format_ts(1_609_459_200_000), "2021-01-01T00:00:00Z");
    assert_eq!(format_ts(1_500), "1970-01-01T00:00:01Z");
    // Out of the representable range: the milliseconds themselves.
    assert_eq!(format_ts(i64::MAX), i64::MAX.to_string());
}

#[test]
fn metric_query_from_arg_and_input() {
    assert_eq!(metric_query_from_arg(Some("avg:cpu{*}".to_string())), Some("avg:cpu{*}".to_string()));
    assert_eq!(metric_query_from_arg(Some("   ".to_string())), None);
    assert_eq!(metric_query_from_arg(None), None);
    assert_eq!(metric_query_from_input("  sum:x{*}\n").unwrap(), "sum:x{*}");
    assert!(metric_query_from_input(" \n ").is_err());
}

#[test]
fn metrics_window_in_milliseconds() {
    let args = QueryArgs {
        query: None,
        from: "now-1h".to_string(),
        to: "now".to_string(),
        interval: Some("5m".to_string()),
    };
    let w = metrics_window_at(&args, 10_000).unwrap();
    assert_eq!(w.from_ms, (10_000 - 3_600) * 1000);
    assert_eq!(w.to_ms, 10_000 * 1000);
    assert_eq!(w.interval_ms, Some(300_000));
}
