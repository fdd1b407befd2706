use ddog::cli::{log_level, tracing_directive};
use ddog::dashboards::{
    dashboard_path, dashboard_row, dashboard_table_header, filter_by_title, summary_line,
    DashboardSummary, DASHBOARD_PATH,
};
use ddog::json::JsonValue;
use ddog::monitors::{
    list_filter, monitor_lines, monitor_list_query, monitor_path, monitor_row,
    monitor_table_header, ListArgs, Monitor, MonitorListFilter,
};

fn dash(id: &str, title: Option<&str>) -> DashboardSummary {
    DashboardSummary {
        id: id.to_string(),
        title: title.map(|t| t.to_string()),
        url: Some(format!("/dashboard/{id}")),
        author_handle: None,
        description: None,
    }
}

fn ids(ds: &[DashboardSummary]) -> Vec<&str> {
    ds.iter().map(|d| d.id.as_str()).collect()
}

#[test]
fn dashboards_filter_by_title_case_insensitively() {
    let all = vec![
        dash("a", Some("Payments Overview")),
        dash("b", Some("Infra")),
        dash("c", None),
        dash("d", Some("PAYMENTS errors")),
    ];
    let kept = filter_by_title(all, Some("payments"));
    assert_eq!(ids(&kept), vec!["a", "d"]);
    let all = vec![dash("a", Some("X")), dash("c", None)];
    assert_eq!(ids(&filter_by_title(all, None)), vec!["a", "c"]);
    let all = vec![dash("a", Some("X")), dash("c", None)];
    assert_eq!(ids(&filter_by_title(all, Some(""))), vec!["a"]);
}

#[test]
fn dashboard_rows_and_paths() {
    assert_eq!(dashboard_table_header(), vec!["id", "title", "url"]);
    assert_eq!(dashboard_row(&dash("a", None)), vec!["a", "-", "/dashboard/a"]);
    assert_eq!(dashboard_path("abc-def"), "api/v1/dashboard/abc-def");
    assert_eq!(DASHBOARD_PATH, "api/v1/dashboard");
}

#[test]
fn dashboard_summary_line() {
    let d = JsonValue::Object(vec![
        ("id".to_string(), JsonValue::Str("abc".to_string())),
        ("title".to_string(), JsonValue::Str("Ops".to_string())),
        (
            "widgets".to_string(),
            JsonValue::Array(vec![JsonValue::Null, JsonValue::Null, JsonValue::Null]),
        ),
    ]);
    assert_eq!(summary_line(&d), "abc  Ops  (3 widgets)  -");
    assert_eq!(summary_line(&JsonValue::Null), "-  -  (0 widgets)  -");
}

fn monitor() -> Monitor {
    Monitor {
        id: 42,
        name: Some("CPU high".to_string()),
        overall_state: Some("Alert".to_string()),
        kind: Some("metric alert".to_string()),
        tags: vec!["env:prod".to_string(), "team:core".to_string()],
        query: Some("avg(last_5m):avg:cpu{*} > 90".to_string()),
        message: Some(String::new()),
        extra: JsonValue::Null,
    }
}

#[test]
fn monitor_rows_and_lines() {
    assert_eq!(monitor_table_header(), vec!["id", "name", "overall_state", "tags"]);
    assert_eq!(monitor_row(&monitor()), vec!["42", "CPU high", "Alert", "env:prod,team:core"]);
    assert_eq!(
        monitor_lines(&monitor()),
        vec![
            "42  Alert  CPU high".to_string(),
            "tags: env:prod,team:core".to_string(),
            "query: avg(last_5m):avg:cpu{*} > 90".to_string(),
        ]
    );
    let mut m = monitor();
    m.id = -7;
    m.tags.clear();
    m.name = None;
    m.query = None;
    m.message = Some("page me".to_string());
    assert_eq!(monitor_lines(&m), vec!["-7  Alert  -".to_string(), "message: page me".to_string()]);
    assert_eq!(monitor_path(42), "api/v1/monitor/42");
}

#[test]
fn monitor_list_parameters() {
    let f = list_filter(ListArgs {
        name: Some("cpu".to_string()),
        tag: None,
        monitor_tag: Some("team:core".to_string()),
    });
    assert_eq!(
        monitor_list_query(&f),
        vec![
            ("name".to_string(), "cpu".to_string()),
            ("monitor_tags".to_string(), "team:core".to_string()),
        ]
    );
    let none = MonitorListFilter { name: None, tags: None, monitor_tags: None };
    assert!(monitor_list_query(&none).is_empty());
}

#[test]
fn log_filters_by_verbosity() {
    assert_eq!(log_level(0), "warn");
    assert_eq!(log_level(1), "info");
    assert_eq!(log_level(2), "debug");
    assert_eq!(log_level(9), "trace");
    assert_eq!(tracing_directive(1), "ddog=info,dd_api=info,dd_cli=info");
}
