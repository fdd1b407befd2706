use ddog::aggregate::{
    bucket_table_row, flatten_timeseries, parse_measure, ts_table_row, value_to_string, TsRow,
};
use ddog::json::JsonValue;
use ddog::logs::Bucket;
use ddog::logs_cli::CliError;

fn to_json(v: &serde_json::Value) -> JsonValue {
    match v {
        serde_json::Value::Null => JsonValue::Null,
        serde_json::Value::Bool(b) => JsonValue::Bool(*b),
        serde_json::Value::Number(n) => JsonValue::Number(n.to_string()),
        serde_json::Value::String(s) => JsonValue::Str(s.clone()),
        serde_json::Value::Array(xs) => JsonValue::Array(xs.iter().map(to_json).collect()),
        serde_json::Value::Object(m) => {
            JsonValue::Object(m.iter().map(|(k, x)| (k.clone(), to_json(x))).collect())
        }
    }
}

fn buckets_from(json: &str) -> Vec<Bucket> {
    let resp: serde_json::Value = serde_json::from_str(json).unwrap();
    match resp.get("data").and_then(|d| d.get("buckets")).and_then(|b| b.as_array()) {
        Some(bs) => bs
            .iter()
            .map(|b| Bucket {
                by: b.get("by").map(to_json).unwrap_or(JsonValue::Null),
                computes: b.get("computes").map(to_json).unwrap_or(JsonValue::Null),
            })
            .collect(),
        None => Vec::new(),
    }
}

fn num(s: &str) -> JsonValue {
    JsonValue::Number(s.to_string())
}

fn text(s: &str) -> JsonValue {
    JsonValue::Str(s.to_string())
}

#[test]
fn flatten_expands_each_group_per_bucket() {
    let buckets = buckets_from(
        r#"{"data":{"buckets":[
            {"by":{"feed":"positions"},"computes":{"c0":[
                {"value":100,"time":"2026-05-19T00:00:00.000Z"},
                {"value":120,"time":"2026-05-20T00:00:00.000Z"}
            ]}},
            {"by":{"feed":"balances"},"computes":{"c0":[
                {"value":5,"time":"2026-05-19T00:00:00.000Z"}
            ]}}
        ]}}"#,
    );
    let rows = flatten_timeseries(&buckets, &vec!["count".to_string()]);
    assert_eq!(rows.len(), 3);
    assert_eq!(rows[0].by.get("feed"), Some(&text("positions")));
    assert_eq!(rows[0].measure, "count");
    assert_eq!(rows[0].time, "2026-05-19T00:00:00.000Z");
    assert_eq!(rows[0].value, num("100"));
    assert_eq!(rows[1].value, num("120"));
    assert_eq!(rows[2].by.get("feed"), Some(&text("balances")));
    assert_eq!(rows[2].value, num("5"));
}

#[test]
fn flatten_maps_compute_keys_to_measures_by_position() {
    let buckets = buckets_from(
        r#"{"data":{"buckets":[
            {"by":{},"computes":{
                "c0":[{"value":7,"time":"2026-05-19T00:00:00.000Z"}],
                "c1":[{"value":2.5,"time":"2026-05-19T00:00:00.000Z"}]
            }}
        ]}}"#,
    );
    let rows =
        flatten_timeseries(&buckets, &vec!["count".to_string(), "avg:@duration".to_string()]);
    assert_eq!(rows.len(), 2);
    assert_eq!(rows[0].measure, "count");
    assert_eq!(rows[0].value, num("7"));
    assert_eq!(rows[1].measure, "avg:@duration");
    assert_eq!(rows[1].value, num("2.5"));
}

#[test]
fn flatten_preserves_null_value() {
    let buckets = buckets_from(
        r#"{"data":{"buckets":[
            {"by":{},"computes":{"c0":[{"value":null,"time":"2026-05-19T00:00:00.000Z"}]}}
        ]}}"#,
    );
    let rows = flatten_timeseries(&buckets, &vec!["count".to_string()]);
    assert_eq!(rows.len(), 1);
    assert!(rows[0].value.is_null());
    assert_eq!(value_to_string(&rows[0].value), "—");
}

#[test]
fn flatten_handles_empty_and_missing_keys() {
    assert!(flatten_timeseries(&vec![], &vec!["count".to_string()]).is_empty());
    // A measure with no matching compute key yields no rows for it.
    let buckets = buckets_from(r#"{"data":{"buckets":[{"by":{},"computes":{}}]}}"#);
    assert!(flatten_timeseries(&buckets, &vec!["count".to_string()]).is_empty());
}

#[test]
fn value_to_string_keeps_integers_clean() {
    assert_eq!(value_to_string(&to_json(&serde_json::Value::from(2901))), "2901");
    assert_eq!(value_to_string(&to_json(&serde_json::Value::from(2.5))), "2.5");
    assert_eq!(value_to_string(&JsonValue::Null), "—");
}

#[test]
fn value_to_string_writes_other_values_as_json() {
    assert_eq!(value_to_string(&text("a\"b")), "\"a\\\"b\"");
    assert_eq!(value_to_string(&JsonValue::Bool(true)), "true");
    let obj = JsonValue::Object(vec![("k".to_string(), JsonValue::Array(vec![num("1"), JsonValue::Null]))]);
    assert_eq!(value_to_string(&obj), "{\"k\":[1,null]}");
}

#[test]
fn table_rows_render_json_and_values() {
    let b = Bucket {
        by: JsonValue::Object(vec![("feed".to_string(), text("positions"))]),
        computes: JsonValue::Object(vec![("c0".to_string(), num("3"))]),
    };
    assert_eq!(
        bucket_table_row(&b),
        vec!["{\"feed\":\"positions\"}".to_string(), "{\"c0\":3}".to_string()]
    );
    let row = TsRow {
        by: JsonValue::Object(vec![]),
        measure: "count".to_string(),
        time: "t".to_string(),
        value: JsonValue::Null,
    };
    assert_eq!(
        ts_table_row(&row),
        vec!["{}".to_string(), "count".to_string(), "t".to_string(), "—".to_string()]
    );
}

#[test]
fn parse_measure_accepts_count_and_agg_metric() {
    let c = parse_measure("count").unwrap();
    assert_eq!(c.aggregation, "count");
    assert_eq!(c.metric, None);
    let c = parse_measure("avg:@duration").unwrap();
    assert_eq!(c.aggregation, "avg");
    assert_eq!(c.metric.as_deref(), Some("@duration"));
}

#[test]
fn parse_measure_splits_at_first_colon() {
    let c = parse_measure("pc95:@a:b").unwrap();
    assert_eq!(c.aggregation, "pc95");
    assert_eq!(c.metric.as_deref(), Some("@a:b"));
    let c = parse_measure("avg:").unwrap();
    assert_eq!(c.aggregation, "avg");
    assert_eq!(c.metric.as_deref(), Some(""));
}

#[test]
fn parse_measure_rejects_malformed() {
    match parse_measure("avg") {
        Err(CliError::Measure(m)) => {
            assert_eq!(m, "invalid measure 'avg' (use 'count' or '<agg>:<facet>')")
        }
        other => panic!("unexpected {:?}", other),
    }
    assert!(matches!(parse_measure("Count"), Err(CliError::Measure(_))));
}
