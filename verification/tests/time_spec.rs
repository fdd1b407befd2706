use ddog::time_spec::{duration_secs, normalize, to_epoch_secs, to_epoch_secs_at, TimeError};

fn epoch(s: &str) -> Result<i64, TimeError> {
    to_epoch_secs(s).expect("input admissible at the current time")
}

#[test]
fn relative_passes_through() {
    assert_eq!(normalize("now").unwrap(), "now");
    assert_eq!(normalize("now-15m").unwrap(), "now-15m");
    assert_eq!(normalize("now-1h").unwrap(), "now-1h");
    assert_eq!(normalize("now-7d").unwrap(), "now-7d");
}

#[test]
fn absolute_parses_rfc3339() {
    let got = normalize("2026-04-16T18:04:12Z").unwrap();
    assert!(got.starts_with("2026-04-16"));
}

#[test]
fn rejects_garbage() {
    assert!(normalize("yesterday").is_err());
    assert!(normalize("").is_err());
    assert!(normalize("now-").is_err());
    assert!(normalize("now-1x").is_err());
}

#[test]
fn epoch_resolves_relative() {
    let now = epoch("now").unwrap();
    let an_hour_ago = epoch("now-1h").unwrap();
    assert!((now - an_hour_ago - 3_600).abs() <= 2);
    let two_days_ago = epoch("now-2d").unwrap();
    assert!((now - two_days_ago - 172_800).abs() <= 2);
}

#[test]
fn epoch_parses_absolute() {
    // 2021-01-01T00:00:00Z == 1_609_459_200
    assert_eq!(epoch("2021-01-01T00:00:00Z").unwrap(), 1_609_459_200);
}

#[test]
fn epoch_rejects_garbage() {
    assert!(epoch("tomorrow").is_err());
    assert!(epoch("now-1x").is_err());
    assert!(epoch("now-").is_err());
    assert!(epoch("").is_err());
}

#[test]
fn duration_parses_units() {
    assert_eq!(duration_secs("15m").unwrap(), 900);
    assert_eq!(duration_secs("1h").unwrap(), 3_600);
    assert_eq!(duration_secs("1d").unwrap(), 86_400);
    assert_eq!(duration_secs("1w").unwrap(), 604_800);
}

#[test]
fn duration_rejects_garbage() {
    assert!(duration_secs("").is_err());
    assert!(duration_secs("1y").is_err());
    assert!(duration_secs("abc").is_err());
}

#[test]
fn normalize_trims_and_reports_each_error() {
    assert_eq!(normalize("  now-5m ").unwrap(), "now-5m");
    assert_eq!(normalize("   "), Err(TimeError::Empty));
    assert_eq!(normalize("yesterday"), Err(TimeError::BadTime("yesterday".to_string())));
    assert_eq!(normalize("now-1x"), Err(TimeError::BadTime("now-1x".to_string())));
}

#[test]
fn normalize_rewrites_rfc3339_canonically() {
    // The time crate writes the offset form back as UTC-normalised text of
    // the same instant; the input changes, so the call is not a pass-through.
    let got = normalize("2026-04-16T18:04:12+00:00").unwrap();
    assert_eq!(got, "2026-04-16T18:04:12Z");
}

#[test]
fn normalize_writes_absolute_times_in_utc() {
    assert_eq!(normalize("2026-04-16T20:04:12+02:00").unwrap(), "2026-04-16T18:04:12Z");
    assert_eq!(normalize("2026-04-16T23:30:00-01:00").unwrap(), "2026-04-17T00:30:00Z");
}

#[test]
fn epoch_at_a_fixed_time() {
    assert_eq!(to_epoch_secs_at("now", 1_000_000), Ok(1_000_000));
    assert_eq!(to_epoch_secs_at("now-10s", 1_000_000), Ok(999_990));
    assert_eq!(to_epoch_secs_at("now-2w", 2_000_000), Ok(2_000_000 - 2 * 604_800));
    assert_eq!(to_epoch_secs_at(" now-1m ", 100), Ok(40));
    assert_eq!(to_epoch_secs_at("", 5), Err(TimeError::Empty));
    assert_eq!(to_epoch_secs_at("now-", 5), Err(TimeError::BadRelative("now-".to_string())));
    assert_eq!(to_epoch_secs_at("now-xm", 5), Err(TimeError::BadRelative("now-xm".to_string())));
    assert_eq!(
        to_epoch_secs_at("now-1x", 5),
        Err(TimeError::BadRelativeUnit("now-1x".to_string()))
    );
    assert_eq!(to_epoch_secs_at("tomorrow", 5), Err(TimeError::BadTime("tomorrow".to_string())));
    assert_eq!(to_epoch_secs_at("1970-01-02T00:00:00Z", 5), Ok(86_400));
    assert_eq!(to_epoch_secs_at("now--5m", 100), Err(TimeError::BadRelative("now--5m".to_string())));
    assert_eq!(to_epoch_secs_at("now-+5m", 100), Err(TimeError::BadRelative("now-+5m".to_string())));
    assert!(epoch("now--5m").is_err());
}

#[test]
fn normalize_is_idempotent() {
    for input in ["now", " now-15m ", "2026-04-16T20:04:12.5+02:00", "2026-04-16T18:04:12Z"] {
        let once = normalize(input).unwrap();
        assert_eq!(normalize(&once).unwrap(), once);
    }
}

#[test]
fn duration_errors_and_values() {
    assert_eq!(duration_secs(" 30s "), Ok(30));
    assert_eq!(duration_secs("-2m"), Ok(-120));
    assert_eq!(duration_secs(""), Err(TimeError::EmptyDuration));
    assert_eq!(duration_secs("xm"), Err(TimeError::BadDuration("xm".to_string())));
    assert_eq!(duration_secs("5y"), Err(TimeError::BadDurationUnit("5y".to_string())));
}

#[test]
fn error_messages() {
    assert_eq!(TimeError::Empty.message(), "time value cannot be empty");
    assert_eq!(
        TimeError::BadRelativeUnit("now-1x".to_string()).message(),
        "invalid relative time unit in 'now-1x' (expected s|m|h|d|w)"
    );
    assert_eq!(TimeError::BadDuration("q".to_string()).message(), "invalid duration 'q'");
}
