use andromeda::config::{
    AppConfig, ContextConfig, GuardsConfig, LoadFailure, RawConfig, RawContext, RawPersist,
    RawPersistSection, SubagentsConfig,
};

fn text(table: &toml::Table, key: &str) -> Option<String> {
    table.get(key).and_then(|v| v.as_str()).map(str::to_string)
}

fn number(table: &toml::Table, key: &str) -> Option<u64> {
    table.get(key).and_then(|v| v.as_integer()).map(|n| n as u64)
}

fn persist(table: &toml::Table, key: &str) -> Option<RawPersist> {
    table.get(key).and_then(|v| v.as_table()).map(|section| RawPersist {
        enabled: section.get("enabled").and_then(|v| v.as_bool()),
        data_dir: text(section, "data_dir"),
        instance_id: text(section, "instance_id"),
    })
}

/// The configuration file as it stands.
fn raw(source: &str) -> RawConfig {
    let table: toml::Table = toml::from_str(source).unwrap();
    RawConfig {
        api_key: text(&table, "api_key").unwrap(),
        base_url: text(&table, "base_url"),
        model: text(&table, "model"),
        listen: text(&table, "listen"),
        tool_timeout_secs: number(&table, "tool_timeout_secs"),
        follow_up_policy: text(&table, "follow_up_policy"),
        log_level: text(&table, "log_level"),
        persist: match (persist(&table, "persist"), persist(&table, "long_horizon")) {
            (None, None) => RawPersistSection::Absent,
            (Some(section), None) => RawPersistSection::Persist(section),
            (None, Some(section)) => RawPersistSection::LongHorizon(section),
            (Some(_), Some(_)) => panic!("one section under two names"),
        },
        context: table.get("context").and_then(|v| v.as_table()).map(|section| RawContext {
            summarize_threshold_tokens: number(section, "summarize_threshold_tokens"),
            keep_last_messages: number(section, "keep_last_messages").map(|n| n as usize),
            max_context_tokens: number(section, "max_context_tokens"),
        }),
        guards: None,
        subagents: None,
    }
}

fn load(source: &str) -> AppConfig {
    AppConfig::load("config.toml", Ok(raw(source))).unwrap()
}

#[test]
fn persist_defaults_when_section_omitted() {
    let cfg = load(
        r#"
        api_key = "sk-test"
        model = "m"
        "#,
    );
    assert!(cfg.persist.enabled);
    assert_eq!(cfg.persist.data_dir, "./data");
    assert!(cfg.persist.instance_id.is_empty());
}

#[test]
fn persist_section_overrides() {
    let cfg = load(
        r#"
        api_key = "sk-test"
        [persist]
        enabled = false
        data_dir = "/tmp/andromeda-data"
        instance_id = "node-a"
        "#,
    );
    assert!(!cfg.persist.enabled);
    assert_eq!(cfg.persist.data_dir, "/tmp/andromeda-data");
    assert_eq!(cfg.persist.instance_id, "node-a");
}

#[test]
fn context_defaults_when_section_omitted() {
    let cfg = load(r#"api_key = "sk""#);
    assert_eq!(cfg.context.summarize_threshold_tokens, 80_000);
    assert_eq!(cfg.context.keep_last_messages, 24);
    assert_eq!(cfg.context.max_context_tokens, 120_000);
}

#[test]
fn context_section_overrides() {
    let cfg = load(
        r#"
        api_key = "sk"
        [context]
        summarize_threshold_tokens = 100
        keep_last_messages = 4
        max_context_tokens = 200
        "#,
    );
    assert_eq!(cfg.context.summarize_threshold_tokens, 100);
    assert_eq!(cfg.context.keep_last_messages, 4);
    assert_eq!(cfg.context.max_context_tokens, 200);
}

#[test]
fn long_horizon_alias_still_loads() {
    let cfg = load(
        r#"
        api_key = "sk-test"
        [long_horizon]
        enabled = false
        data_dir = "/tmp/old"
        "#,
    );
    assert!(!cfg.persist.enabled);
    assert_eq!(cfg.persist.data_dir, "/tmp/old");
}

#[test]
fn defaults_are_filled_in() {
    let cfg = load(r#"api_key = "sk""#);
    assert_eq!(cfg.listen, "127.0.0.1:8080");
    assert_eq!(cfg.tool_timeout_secs, 60);
    assert_eq!(cfg.follow_up_policy, "noop");
    assert_eq!(cfg.log_level, "info");
    assert_eq!(cfg.base_url, None);
    assert_eq!(cfg.context, ContextConfig::default());
    assert_eq!(cfg.guards, GuardsConfig::default());
    assert_eq!(cfg.subagents, SubagentsConfig::default());
}

#[test]
fn a_blank_key_is_refused() {
    assert_eq!(
        AppConfig::load("c.toml", Ok(raw(r#"api_key = "  ""#))).unwrap_err(),
        "c.toml: api_key is required"
    );
}

#[test]
fn failures_to_load_are_told_with_the_path() {
    assert_eq!(
        AppConfig::load("c.toml", Err(LoadFailure::Read("no such file".into()))).unwrap_err(),
        "failed to read c.toml: no such file\nCopy config.example.toml to config.toml and fill in api_key."
    );
    assert_eq!(
        AppConfig::load("c.toml", Err(LoadFailure::Parse("bad".into()))).unwrap_err(),
        "failed to parse c.toml: bad"
    );
}
