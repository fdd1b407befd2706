use std::path::PathBuf;

use ddog::config::{
    check_profile_names, pick_config_path, resolve, ConfigError, ConfigSource, Environment,
    FileConfig, Overrides, Profile, DEFAULT_SITE,
};

fn opt(v: Option<&toml::Value>) -> Option<String> {
    v.and_then(|x| x.as_str()).map(|s| s.to_string())
}

fn file_from_toml(raw: &str) -> FileConfig {
    let table: toml::Table = raw.parse().unwrap();
    let mut file = FileConfig::empty();
    file.default_site = opt(table.get("default_site"));
    file.default_profile = opt(table.get("default_profile"));
    if let Some(profiles) = table.get("profiles").and_then(|p| p.as_table()) {
        for (name, p) in profiles {
            let profile = Profile {
                api_key: opt(p.get("api_key")),
                app_key: opt(p.get("app_key")),
                site: opt(p.get("site")),
            };
            file.set_profile(name.clone(), profile);
        }
    }
    file
}

fn no_overrides() -> Overrides {
    Overrides { api_key: None, app_key: None, site: None, profile: None, config_path: None }
}

fn no_env() -> Environment {
    Environment { api_key: None, app_key: None, site: None, profile: None }
}

fn s(x: &str) -> Option<String> {
    Some(x.to_string())
}

const SAMPLE: &str = r#"
    default_site = "datadoghq.eu"
    default_profile = "prod"

    [profiles.prod]
    api_key = "a"
    app_key = "b"

    [profiles.staging]
    api_key = "c"
    app_key = "d"
    site = "us5.datadoghq.com"
"#;

#[test]
fn parses_profiles_toml() {
    let parsed = file_from_toml(SAMPLE);
    assert_eq!(parsed.default_site.as_deref(), Some("datadoghq.eu"));
    assert_eq!(parsed.default_profile.as_deref(), Some("prod"));
    assert_eq!(parsed.profiles.len(), 2);
    assert_eq!(
        parsed.profile("staging").unwrap().site.as_deref(),
        Some("us5.datadoghq.com")
    );
}

#[test]
fn default_profile_and_default_site_apply() {
    let file = Some(file_from_toml(SAMPLE));
    let cfg = resolve(&no_overrides(), &no_env(), &file).unwrap();
    assert_eq!(cfg.api_key, "a");
    assert_eq!(cfg.app_key, "b");
    assert_eq!(cfg.site, "datadoghq.eu");
    assert_eq!(cfg.profile.as_deref(), Some("prod"));
    assert_eq!(cfg.source, ConfigSource::File);
}

#[test]
fn flag_beats_env_beats_profile() {
    let file = Some(file_from_toml(SAMPLE));
    let mut env = no_env();
    env.profile = s("staging");
    env.site = s("env.example");
    env.api_key = s("env-key");
    let cfg = resolve(&no_overrides(), &env, &file).unwrap();
    assert_eq!(cfg.profile.as_deref(), Some("staging"));
    assert_eq!(cfg.api_key, "env-key");
    assert_eq!(cfg.app_key, "d");
    assert_eq!(cfg.site, "env.example");
    assert_eq!(cfg.source, ConfigSource::FileAndEnv);

    let mut ov = no_overrides();
    ov.site = s("flag.example");
    ov.api_key = s("flag-key");
    ov.profile = s("prod");
    let cfg = resolve(&ov, &env, &file).unwrap();
    assert_eq!(cfg.profile.as_deref(), Some("prod"));
    assert_eq!(cfg.api_key, "flag-key");
    assert_eq!(cfg.app_key, "b");
    assert_eq!(cfg.site, "flag.example");
}

#[test]
fn profile_site_beats_file_default() {
    let file = Some(file_from_toml(SAMPLE));
    let mut ov = no_overrides();
    ov.profile = s("staging");
    let cfg = resolve(&ov, &no_env(), &file).unwrap();
    assert_eq!(cfg.site, "us5.datadoghq.com");
}

#[test]
fn env_only_uses_builtin_site() {
    let mut env = no_env();
    env.api_key = s("k");
    env.app_key = s("p");
    let cfg = resolve(&no_overrides(), &env, &None).unwrap();
    assert_eq!(cfg.site, DEFAULT_SITE);
    assert_eq!(cfg.site, "datadoghq.com");
    assert_eq!(cfg.profile, None);
    assert_eq!(cfg.source, ConfigSource::EnvOnly);
}

#[test]
fn unknown_profile_is_refused_by_name() {
    let file = Some(file_from_toml(SAMPLE));
    let mut ov = no_overrides();
    ov.profile = s("dev");
    let err = resolve(&ov, &no_env(), &file).unwrap_err();
    assert_eq!(err, ConfigError::ProfileNotFound("dev".to_string()));
    assert_eq!(err.message(), "profile 'dev' not found in config file");
    // Without a file every selected profile is unknown.
    let err = resolve(&ov, &no_env(), &None).unwrap_err();
    assert_eq!(err, ConfigError::ProfileNotFound("dev".to_string()));
}

#[test]
fn missing_or_empty_keys_are_refused() {
    let err = resolve(&no_overrides(), &no_env(), &None).unwrap_err();
    assert_eq!(err, ConfigError::MissingApiKey);
    assert_eq!(
        err.message(),
        "DD_API_KEY is required (set --api-key, DD_API_KEY env, or profile)"
    );
    let mut env = no_env();
    env.api_key = s("k");
    let err = resolve(&no_overrides(), &env, &None).unwrap_err();
    assert_eq!(err, ConfigError::MissingAppKey);
    // An empty flag value is chosen, then refused: it does not fall through.
    let file = Some(file_from_toml(SAMPLE));
    let mut ov = no_overrides();
    ov.api_key = s("");
    let err = resolve(&ov, &no_env(), &file).unwrap_err();
    assert_eq!(err, ConfigError::MissingApiKey);
}

#[test]
fn blank_profile_names_are_refused() {
    let ok = file_from_toml(SAMPLE);
    assert_eq!(check_profile_names(&ok), Ok(()));
    let mut bad = file_from_toml(SAMPLE);
    bad.set_profile("  ".to_string(), Profile { api_key: None, app_key: None, site: None });
    assert_eq!(check_profile_names(&bad), Err(ConfigError::EmptyProfileName));
    assert_eq!(ConfigError::EmptyProfileName.message(), "profile names cannot be empty");
}

#[test]
fn set_profile_replaces_by_name() {
    let mut file = file_from_toml(SAMPLE);
    file.set_profile(
        "prod".to_string(),
        Profile { api_key: s("z"), app_key: None, site: None },
    );
    assert_eq!(file.profiles.len(), 2);
    assert_eq!(file.profile("prod").unwrap().api_key.as_deref(), Some("z"));
    assert_eq!(file.profile("staging").unwrap().api_key.as_deref(), Some("c"));
    assert!(file.profile("dev").is_none());
}

#[test]
fn config_path_precedence() {
    let a = PathBuf::from("/a.toml");
    let b = PathBuf::from("/b.toml");
    let c = PathBuf::from("/c.toml");
    assert_eq!(pick_config_path(Some(a.clone()), Some(b.clone()), Some(c.clone())), Some(a));
    assert_eq!(pick_config_path(None, Some(b.clone()), Some(c.clone())), Some(b));
    assert_eq!(pick_config_path(None, None, Some(c.clone())), Some(c));
    assert_eq!(pick_config_path(None, None, None), None);
}
