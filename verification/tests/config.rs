use bo::config::{
    config_json, config_path_for, not_seeded_err, require_config_from, resolve_output_dir, seed_step, Config,
    ConfigError, SeedStep, NOT_SEEDED_MSG,
};
use std::path::PathBuf;

#[test]
fn config_path_under_home() {
    assert_eq!(config_path_for(Some("/home/u")), "/home/u/.bo/config.json");
    assert_eq!(config_path_for(Some("/home/u/")), "/home/u/.bo/config.json");
    assert_eq!(config_path_for(None), "./.bo/config.json");
    let expected = PathBuf::from("/root").join(".bo").join("config.json");
    assert_eq!(config_path_for(Some("/root")), expected.to_str().unwrap());
}

#[test]
fn config_error_messages() {
    assert_eq!(ConfigError::NotFound.message(), "config file not found");
    assert_eq!(ConfigError::Io("denied".to_string()).message(), "config I/O error: denied");
    assert_eq!(ConfigError::Parse("eof".to_string()).message(), "config parse error: eof");
}

#[test]
fn not_seeded_hint_names_seed() {
    assert_eq!(not_seeded_err(), NOT_SEEDED_MSG);
    assert!(not_seeded_err().contains("bo seed"));
}

#[test]
fn require_config_outcomes() {
    let ok = require_config_from(Ok(Config { output_dir: "/s".to_string() })).unwrap();
    assert_eq!(ok.output_dir, "/s");
    let e = require_config_from(Err(ConfigError::NotFound)).unwrap_err();
    assert!(e.contains("seed"));
    assert_eq!(e, NOT_SEEDED_MSG);
    let e = require_config_from(Err(ConfigError::Parse("bad".to_string()))).unwrap_err();
    assert_eq!(e, "failed to read config: config parse error: bad");
}

#[test]
fn seed_decisions() {
    let done = seed_step(&Ok(Config { output_dir: "/tmp/my-stash".to_string() }));
    assert!(matches!(done, SeedStep::AlreadySeeded(m) if m == "bo has already been seeded at /tmp/my-stash!"));
    assert!(matches!(seed_step(&Err(ConfigError::NotFound)), SeedStep::Create));
    let fail = seed_step(&Err(ConfigError::Io("denied".to_string())));
    assert!(matches!(fail, SeedStep::Fail(m) if m == "failed to read config: config I/O error: denied"));
}

#[test]
fn output_dir_made_absolute() {
    assert_eq!(resolve_output_dir("/abs/stash", "/home/u"), "/abs/stash");
    assert_eq!(resolve_output_dir("my-stash", "/home/u"), "/home/u/my-stash");
    assert_eq!(resolve_output_dir("my-stash", "/"), "/my-stash");
}

#[test]
fn config_json_matches_pretty_serde() {
    for dir in ["/tmp/my-stash", "/some/path", "quote\"back\\slash", ""] {
        let mut map = serde_json::Map::new();
        map.insert("output_dir".to_string(), serde_json::Value::String(dir.to_string()));
        let expected = serde_json::to_string_pretty(&serde_json::Value::Object(map)).unwrap();
        assert_eq!(config_json(dir), expected);
    }
    assert_eq!(config_json("/some/path"), "{\n  \"output_dir\": \"/some/path\"\n}");
}
