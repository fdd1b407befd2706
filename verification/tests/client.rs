use std::time::Duration;

use ddog::client::{
    backoff_for, base_url_string, on_response, on_send_error, send_error_step,
    strip_leading_chars, ClientBuilder, Step,
    DEFAULT_TIMEOUT_SECS, MAX_RETRIES, USER_AGENT,
};
use ddog::error::ApiError;

#[test]
fn backoff_doubles_from_half_a_second() {
    assert_eq!(backoff_for(0), Duration::from_millis(500));
    assert_eq!(backoff_for(1), Duration::from_millis(500));
    assert_eq!(backoff_for(2), Duration::from_millis(1000));
    assert_eq!(backoff_for(3), Duration::from_millis(2000));
    assert_eq!(backoff_for(11), Duration::from_millis(512_000));
    assert_eq!(backoff_for(56), Duration::from_millis(500 * (1u64 << 55)));
    assert_eq!(backoff_for(56), backoff_for(55) * 2);
}

#[test]
fn user_agent_names_the_cli() {
    assert!(USER_AGENT.starts_with("dd-cli/"));
}

fn connect_error() -> reqwest::Error {
    let rt = tokio::runtime::Builder::new_current_thread().enable_all().build().unwrap();
    rt.block_on(async {
        reqwest::Client::new().get("http://127.0.0.1:1/").send().await.unwrap_err()
    })
}

#[test]
fn connection_errors_are_retried_then_fail() {
    match on_send_error(1, connect_error()) {
        Step::Retry { wait } => assert_eq!(wait, Duration::from_millis(500)),
        other => panic!("{}", describe(&other)),
    }
    match on_send_error(2, connect_error()) {
        Step::Retry { wait } => assert_eq!(wait, Duration::from_millis(1000)),
        other => panic!("{}", describe(&other)),
    }
    assert!(matches!(on_send_error(MAX_RETRIES, connect_error()), Step::Fail(ApiError::Network(_))));
    assert!(matches!(send_error_step(1, false, connect_error()), Step::Fail(ApiError::Network(_))));
    assert!(matches!(send_error_step(1, true, connect_error()), Step::Retry { .. }));
}

#[test]
fn base_url_and_paths() {
    assert_eq!(base_url_string("datadoghq.eu"), "https://api.datadoghq.eu/");
    assert_eq!(strip_leading_chars("//api/v1/x", '/'), "api/v1/x");
    assert_eq!(strip_leading_chars("api", '/'), "api");
}

#[test]
fn build_and_join_urls() {
    let client = ClientBuilder::new("k", "p").site("datadoghq.eu").build().unwrap();
    assert_eq!(client.base_url().as_str(), "https://api.datadoghq.eu/");
    let u = client.url("/api/v2/logs/events/search").unwrap();
    assert_eq!(u.as_str(), "https://api.datadoghq.eu/api/v2/logs/events/search");
    let default = ClientBuilder::new("k", "p")
        .user_agent(USER_AGENT)
        .timeout(Duration::from_secs(DEFAULT_TIMEOUT_SECS))
        .build()
        .unwrap();
    assert_eq!(default.base_url().as_str(), "https://api.datadoghq.com/");
}

#[test]
fn build_refuses_bad_keys_and_sites() {
    match ClientBuilder::new("bad\nkey", "p").build() {
        Err(ApiError::Upstream { status, body }) => {
            assert_eq!(status, 0);
            assert_eq!(body, "invalid API key header");
        }
        _ => panic!("expected an invalid API key"),
    }
    match ClientBuilder::new("k", "bad\u{7f}").build() {
        Err(ApiError::Upstream { status, body }) => {
            assert_eq!(status, 0);
            assert_eq!(body, "invalid App key header");
        }
        _ => panic!("expected an invalid App key"),
    }
    assert!(matches!(ClientBuilder::new("k", "p").site("bad site").build(), Err(ApiError::Url(_))));
}

fn wait_of(s: Step) -> Duration {
    match s {
        Step::Retry { wait } => wait,
        other => panic!("expected a retry, got {:?}", describe(&other)),
    }
}

fn describe(s: &Step) -> String {
    match s {
        Step::Decode(b) => format!("decode {b}"),
        Step::Retry { wait } => format!("retry {wait:?}"),
        Step::Fail(e) => format!("fail {e:?}"),
    }
}

#[test]
fn responses_map_to_steps() {
    match on_response(1, 200, None, "{}".to_string()) {
        Step::Decode(b) => assert_eq!(b, "{}"),
        other => panic!("{}", describe(&other)),
    }
    assert!(matches!(on_response(1, 401, None, String::new()), Step::Fail(ApiError::Auth)));
    assert!(matches!(on_response(1, 403, None, String::new()), Step::Fail(ApiError::Auth)));
    match on_response(1, 404, None, "gone".to_string()) {
        Step::Fail(ApiError::NotFound(b)) => assert_eq!(b, "gone"),
        other => panic!("{}", describe(&other)),
    }
    assert_eq!(wait_of(on_response(1, 429, Some("7".to_string()), String::new())), Duration::from_secs(7));
    assert_eq!(wait_of(on_response(2, 429, Some("soon".to_string()), String::new())), Duration::from_millis(1000));
    assert_eq!(wait_of(on_response(1, 503, None, String::new())), Duration::from_millis(500));
    match on_response(MAX_RETRIES, 429, Some("9".to_string()), String::new()) {
        Step::Fail(ApiError::RateLimited { retry_after_secs }) => assert_eq!(retry_after_secs, 9),
        other => panic!("{}", describe(&other)),
    }
    match on_response(MAX_RETRIES, 429, None, String::new()) {
        Step::Fail(ApiError::RateLimited { retry_after_secs }) => assert_eq!(retry_after_secs, 0),
        other => panic!("{}", describe(&other)),
    }
    match on_response(MAX_RETRIES, 502, None, "bad gateway".to_string()) {
        Step::Fail(ApiError::Upstream { status, body }) => {
            assert_eq!(status, 502);
            assert_eq!(body, "bad gateway");
        }
        other => panic!("{}", describe(&other)),
    }
    match on_response(1, 400, None, "bad".to_string()) {
        Step::Fail(ApiError::Upstream { status, .. }) => assert_eq!(status, 400),
        other => panic!("{}", describe(&other)),
    }
}

#[test]
fn exit_codes() {
    assert_eq!(ApiError::Auth.exit_code(), 2);
    assert_eq!(ApiError::NotFound(String::new()).exit_code(), 3);
    assert_eq!(ApiError::RateLimited { retry_after_secs: 1 }.exit_code(), 4);
    assert_eq!(ApiError::Upstream { status: 500, body: String::new() }.exit_code(), 5);
    assert_eq!(ddog::error::failure_exit_code(Some(&ApiError::Auth)), 2);
    assert_eq!(ddog::error::failure_exit_code(None), 1);
}
