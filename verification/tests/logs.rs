use ddog::json::JsonValue;
use ddog::logs::{
    first_event, logs_get_request, LogAttributes, LogEvent, SearchResponse, StorageTier,
    SEARCH_PATH,
};
use ddog::logs_cli::{
    clamp_page_limit, facets_unsupported, parse_fields, parse_indexes, plan_search,
    query_from_arg, query_from_input, search_page_request, CliError, SearchArgs, SearchPager,
    TailArgs,
};
use ddog::output::{
    event_table_header, event_table_row, lookup_field, resolve_mode, text_event_line, truncate,
    OutputMode,
};
use ddog::tail::{
    parse_duration, plan_tail, poll_interval_secs, resolve_since, resolve_since_at, tail_request, TailSession,
    TailState,
};
use ddog::error::ApiError;

fn strings(xs: &[&str]) -> Vec<String> {
    xs.iter().map(|s| s.to_string()).collect()
}

fn event() -> LogEvent {
    LogEvent {
        id: "AAA".to_string(),
        kind: Some("log".to_string()),
        attributes: LogAttributes {
            timestamp: Some("2026-05-19T10:00:00Z".to_string()),
            service: Some("api".to_string()),
            status: Some("warn".to_string()),
            message: Some("disk almost full".to_string()),
            host: Some("web-1".to_string()),
            tags: strings(&["env:prod", "team:core"]),
            attributes: JsonValue::Object(vec![
                (
                    "http".to_string(),
                    JsonValue::Object(vec![(
                        "status_code".to_string(),
                        JsonValue::Number("503".to_string()),
                    )]),
                ),
                ("user".to_string(), JsonValue::Str("ana".to_string())),
            ]),
        },
    }
}

#[test]
fn fields_and_indexes_split_on_commas() {
    assert_eq!(parse_fields(Some(" a, b ,,c ".to_string())), strings(&["a", "b", "c"]));
    assert!(parse_fields(None).is_empty());
    assert_eq!(parse_indexes(Some("main,".to_string())), Some(strings(&["main"])));
    assert_eq!(parse_indexes(Some(" , ".to_string())), Some(vec![]));
    assert_eq!(parse_indexes(None), None);
}

#[test]
fn queries_from_argument_or_input() {
    assert_eq!(query_from_arg(Some("service:api".to_string())), Some("service:api".to_string()));
    assert_eq!(query_from_arg(Some(String::new())), None);
    assert_eq!(query_from_input("  status:error \n"), Some("status:error".to_string()));
    assert_eq!(query_from_input("\n\t "), None);
}

#[test]
fn page_limit_is_clamped() {
    assert_eq!(clamp_page_limit(0), 1);
    assert_eq!(clamp_page_limit(50), 50);
    assert_eq!(clamp_page_limit(5000), 1000);
}

fn search_args() -> SearchArgs {
    SearchArgs {
        query: None,
        from: "now-15m".to_string(),
        to: "now".to_string(),
        limit: 2000,
        max: 0,
        sort: "-timestamp".to_string(),
        index: Some("main".to_string()),
        fields: Some("@http.status_code".to_string()),
        storage: "flex".to_string(),
    }
}

#[test]
fn search_plan_and_request() {
    let plan = plan_search(search_args(), Some("service:api".to_string())).unwrap();
    assert_eq!(plan.storage, StorageTier::Flex);
    assert_eq!(plan.limit, 1000);
    assert_eq!(plan.fields, strings(&["@http.status_code"]));
    let req = search_page_request(&plan, Some("cur".to_string()));
    assert_eq!(req.filter.from.as_deref(), Some("now-15m"));
    assert_eq!(req.filter.to.as_deref(), Some("now"));
    assert_eq!(req.filter.query.as_deref(), Some("service:api"));
    assert_eq!(req.filter.indexes, Some(strings(&["main"])));
    assert_eq!(req.filter.storage_tier, Some(StorageTier::Flex));
    let page = req.page.unwrap();
    assert_eq!(page.cursor.as_deref(), Some("cur"));
    assert_eq!(page.limit, Some(1000));
    assert_eq!(req.sort.as_deref(), Some("-timestamp"));
    assert_eq!(SEARCH_PATH, "api/v2/logs/events/search");
}

#[test]
fn search_plan_errors_in_order() {
    let mut args = search_args();
    args.storage = "cold".to_string();
    args.from = "yesterday".to_string();
    match plan_search(args, None) {
        Err(CliError::Storage(m)) => {
            assert_eq!(m, "invalid storage tier 'cold' (expected indexes|online-archives|flex)")
        }
        other => panic!("unexpected {:?}", other),
    }
    let mut args = search_args();
    args.to = "later".to_string();
    assert!(matches!(plan_search(args, None), Err(CliError::Time(_))));
}

#[test]
fn pager_stops_at_the_cap() {
    let mut p = SearchPager::new(5);
    assert_eq!(p.on_page(3, Some("c1".to_string())), (3, true));
    assert_eq!(p.cursor.as_deref(), Some("c1"));
    assert_eq!(p.on_page(3, Some("c2".to_string())), (2, false));
    assert_eq!(p.total, 5);
    let mut q = SearchPager::new(0);
    assert_eq!(q.on_page(100, Some(String::new())), (100, false));
    let mut r = SearchPager::new(0);
    assert_eq!(r.on_page(10, None), (10, false));
}

#[test]
fn storage_tier_names() {
    assert_eq!(StorageTier::parse("online-archives"), Ok(StorageTier::OnlineArchives));
    assert_eq!(StorageTier::parse("indexes"), Ok(StorageTier::Indexes));
    assert!(StorageTier::parse("Flex").is_err());
    assert_eq!(StorageTier::Flex.api_name(), "flex");
    assert_eq!("flex".parse::<StorageTier>(), Ok(StorageTier::Flex));
}

#[test]
fn get_request_and_first_event() {
    let req = logs_get_request("AAA", Some(strings(&["main"])));
    assert_eq!(req.filter.query.as_deref(), Some("@id:AAA"));
    assert_eq!(req.filter.from.as_deref(), Some("now-30d"));
    assert_eq!(req.filter.to.as_deref(), Some("now"));
    assert_eq!(req.page.as_ref().unwrap().limit, Some(1));
    assert_eq!(req.sort.as_deref(), Some("-timestamp"));

    let resp = SearchResponse { data: vec![event()], meta: None, links: None };
    assert_eq!(first_event("AAA", resp).unwrap().id, "AAA");
    let empty = SearchResponse { data: vec![], meta: None, links: None };
    match first_event("ZZZ", empty) {
        Err(ApiError::NotFound(m)) => assert_eq!(m, "no log event with id ZZZ"),
        other => panic!("unexpected {:?}", other),
    }
}

#[test]
fn facets_is_not_implemented() {
    match facets_unsupported() {
        CliError::Unsupported(m) => {
            assert_eq!(m, "`ddog logs facets` is not yet implemented (planned for v0.2)")
        }
        other => panic!("unexpected {:?}", other),
    }
}

#[test]
fn tail_intervals() {
    assert_eq!(parse_duration("2s").unwrap(), 2);
    assert_eq!(parse_duration(" 1m ").unwrap(), 60);
    assert_eq!(parse_duration("1h").unwrap(), 3600);
    match parse_duration("") {
        Err(CliError::Interval(m)) => assert_eq!(m, "empty duration"),
        other => panic!("unexpected {:?}", other),
    }
    match parse_duration("xs") {
        Err(CliError::Interval(m)) => {
            assert_eq!(m, "invalid duration 'xs' (expected e.g. 2s, 30s, 1m)")
        }
        other => panic!("unexpected {:?}", other),
    }
    match parse_duration("3d") {
        Err(CliError::Interval(m)) => assert_eq!(m, "invalid duration unit 'd' (use s|m|h)"),
        other => panic!("unexpected {:?}", other),
    }
    assert_eq!(poll_interval_secs("1s").unwrap(), 2);
    assert_eq!(poll_interval_secs("0s").unwrap(), 2);
    assert_eq!(poll_interval_secs("5s").unwrap(), 5);
}

#[test]
fn since_replaces_now_with_the_clock() {
    let now = "2026-05-19T10:00:00Z".to_string();
    assert_eq!(resolve_since_at("now", now.clone()).unwrap(), now);
    assert_eq!(resolve_since_at(" now-5m", now.clone()).unwrap(), "now-5m");
    assert!(matches!(resolve_since_at("soon", now), Err(CliError::Time(_))));
    assert_eq!(resolve_since(" now-5m ").unwrap(), "now-5m");
    assert_eq!(resolve_since("2026-05-19T12:00:00+02:00").unwrap(), "2026-05-19T10:00:00Z");
    assert!(resolve_since("now").unwrap().ends_with('Z'));
    assert!(matches!(resolve_since("soon"), Err(CliError::Time(_))));
}

#[test]
fn tail_plan_and_request() {
    let args = TailArgs {
        query: Some("service:api".to_string()),
        interval: "1s".to_string(),
        since: "now".to_string(),
        index: None,
        fields: None,
        storage: "indexes".to_string(),
        batch: 0,
    };
    let plan = plan_tail(args).unwrap();
    assert_eq!(plan.interval_secs, 2);
    assert_eq!(plan.batch, 1);
    let req = tail_request(&plan, "a", "b");
    assert_eq!(req.filter.from.as_deref(), Some("a"));
    assert_eq!(req.filter.to.as_deref(), Some("b"));
    assert_eq!(req.sort.as_deref(), Some("timestamp"));
    assert_eq!(req.filter.storage_tier, Some(StorageTier::Indexes));
}

#[test]
fn tail_state_shows_each_id_once() {
    let mut s = TailState::new();
    assert!(s.record("a"));
    assert!(s.record("b"));
    assert!(!s.record("a"));
    s.end_poll();
    assert!(!s.record("b"));
}

#[test]
fn tail_session_moves_the_window_and_dedupes() {
    let args = TailArgs {
        query: None,
        interval: "5s".to_string(),
        since: "now".to_string(),
        index: None,
        fields: None,
        storage: "flex".to_string(),
        batch: 50,
    };
    let plan = plan_tail(args).unwrap();
    let mut session = TailSession::new("t0".to_string());
    let req = session.poll_request(&plan, "t1");
    assert_eq!(req.filter.from.as_deref(), Some("t0"));
    assert_eq!(req.filter.to.as_deref(), Some("t1"));
    assert_eq!(req.page.unwrap().limit, Some(50));
    let shown = session.on_events("t1".to_string(), &strings(&["a", "b", "a"]));
    assert_eq!(shown, vec![true, true, false]);
    let req = session.poll_request(&plan, "t2");
    assert_eq!(req.filter.from.as_deref(), Some("t1"));
    session.on_error("t2".to_string());
    assert_eq!(session.poll_request(&plan, "t3").filter.from.as_deref(), Some("t2"));
    let shown = session.on_events("t3".to_string(), &strings(&["b", "c"]));
    assert_eq!(shown, vec![false, true]);
}

#[test]
fn output_modes() {
    assert_eq!(resolve_mode(Some("json"), true), (OutputMode::Json, false));
    assert_eq!(resolve_mode(Some("table"), false), (OutputMode::Table, false));
    assert_eq!(resolve_mode(Some("yaml"), true), (OutputMode::Text, true));
    assert_eq!(resolve_mode(None, true), (OutputMode::Text, false));
    assert_eq!(resolve_mode(None, false), (OutputMode::Json, false));
}

#[test]
fn fields_are_looked_up_by_name_or_pointer() {
    let ev = event();
    assert_eq!(lookup_field(&ev, "service"), "api");
    assert_eq!(lookup_field(&ev, "tags"), "env:prod,team:core");
    assert_eq!(lookup_field(&ev, "@http.status_code"), "503");
    assert_eq!(lookup_field(&ev, "user"), "ana");
    assert_eq!(lookup_field(&ev, "@http"), "{\"status_code\":503}");
    assert_eq!(lookup_field(&ev, "@missing"), "");
}

#[test]
fn text_line_pads_and_upper_cases() {
    let ev = event();
    assert_eq!(
        text_event_line(&ev, &vec![]),
        "2026-05-19T10:00:00Z  WARN   api                   disk almost full"
    );
    assert_eq!(
        text_event_line(&ev, &strings(&["host", "@http.status_code"])),
        "2026-05-19T10:00:00Z  WARN   api                   disk almost full  host=web-1 @http.status_code=503"
    );
    let mut bare = event();
    bare.attributes.status = None;
    bare.attributes.timestamp = None;
    bare.attributes.service = None;
    bare.attributes.message = None;
    assert_eq!(text_event_line(&bare, &vec![]), "-  INFO   -                     ");
}

#[test]
fn table_rows_truncate_messages() {
    let mut ev = event();
    ev.attributes.message = Some("x".repeat(85));
    let row = event_table_row(&ev, &strings(&["host"]));
    assert_eq!(row.len(), 5);
    assert_eq!(row[1], "WARN");
    assert_eq!(row[3], format!("{}…", "x".repeat(80)));
    assert_eq!(row[4], "web-1");
    assert_eq!(
        event_table_header(&strings(&["host"])),
        strings(&["timestamp", "status", "service", "message", "host"])
    );
    assert_eq!(truncate("héllo".to_string(), 3), "hél…");
    assert_eq!(truncate("abc".to_string(), 3), "abc");
}
