use rsagent::config::{
    config_path, default_base_url, default_enabled, default_max_steps, default_model,
    default_system_prompt, parse_env_file, redact_api_key, AgentConfig, Config, LlmConfig,
    ToolConfig,
};
use rsagent::error::RsagentError;
use rsagent::params::{ParamMap, ParamValue};

fn tool(name: &str, kind: &str, enabled: bool) -> ToolConfig {
    ToolConfig {
        name: name.into(),
        description: format!("{name} tool"),
        kind: kind.into(),
        enabled,
        params: ParamMap::new(),
    }
}

fn config_with(tools: Vec<ToolConfig>) -> Config {
    Config { llm: LlmConfig::default(), agent: AgentConfig::default(), tools }
}

#[test]
fn defaults_match_documented_values() {
    assert_eq!(default_base_url(), "https://api.fireworks.ai/inference/v1");
    assert_eq!(default_model(), "accounts/fireworks/routers/kimi-k2p6-turbo");
    assert!(default_system_prompt().starts_with("You are a concise server operations assistant."));
    assert_eq!(default_max_steps(), 10);
    assert!(default_enabled());
    let c = Config::default();
    assert!(c.tools.is_empty());
    assert_eq!(c.llm.api_key, None);
    assert_eq!(c.agent.max_steps, 10);
}

#[test]
fn validate_accepts_distinct_enabled_tools() {
    let c = config_with(vec![
        tool("mem", "host.memory", true),
        tool("disk", "host.disk", true),
        tool("mem", "host.memory", false),
    ]);
    assert_eq!(c.validate(), Ok(()));
}

#[test]
fn validate_rejects_blank_endpoint_and_model() {
    let mut c = config_with(vec![]);
    c.llm.base_url = "   ".into();
    assert_eq!(c.validate(), Err(RsagentError::Config("llm.base_url must not be empty".into())));
    let mut c = config_with(vec![]);
    c.llm.model = "".into();
    assert_eq!(c.validate(), Err(RsagentError::Config("llm.model must not be empty".into())));
}

#[test]
fn validate_rejects_duplicate_enabled_names() {
    let c = config_with(vec![tool("mem", "host.memory", true), tool("mem", "host.disk", true)]);
    assert_eq!(
        c.validate(),
        Err(RsagentError::Config("duplicate enabled tool name `mem`".into()))
    );
}

#[test]
fn validate_rejects_blank_name_and_kind() {
    let c = config_with(vec![tool(" ", "host.memory", true)]);
    assert_eq!(c.validate(), Err(RsagentError::Config("tool name must not be empty".into())));
    let c = config_with(vec![tool("mem", "\t", true)]);
    assert_eq!(c.validate(), Err(RsagentError::Config("tool `mem` must declare a kind".into())));
    let c = config_with(vec![tool("", "", false)]);
    assert_eq!(c.validate(), Ok(()));
}

#[test]
fn enabled_tools_keeps_order_and_skips_disabled() {
    let c = config_with(vec![
        tool("a", "host.memory", true),
        tool("b", "host.disk", false),
        tool("c", "host.disk", true),
    ]);
    let names: Vec<&str> = c.enabled_tools().iter().map(|t| t.name.as_str()).collect();
    assert_eq!(names, vec!["a", "c"]);
}

#[test]
fn api_key_prefers_config_then_env_then_file() {
    let mut c = config_with(vec![]);
    c.llm.api_key = Some("cfg".into());
    assert_eq!(c.api_key(Some("env".into()), Some("file".into())), Ok("cfg".into()));
    c.llm.api_key = Some(String::new());
    assert_eq!(c.api_key(Some("env".into()), Some("file".into())), Ok("env".into()));
    assert_eq!(c.api_key(Some(String::new()), Some("file".into())), Ok("file".into()));
    assert_eq!(
        c.api_key(None, Some(String::new())),
        Err(RsagentError::Config(
            "missing API key: set llm.api_key or FIREWORKS_API_KEY (env or /etc/rsagent/environment)"
                .into()
        ))
    );
}

#[test]
fn env_file_lookup() {
    let raw = "# comment\n\n  OTHER=1\r\nFIREWORKS_API_KEY=secret=x\nFIREWORKS_API_KEY=second\n";
    assert_eq!(parse_env_file(raw, "FIREWORKS_API_KEY"), Some("secret=x".into()));
    assert_eq!(parse_env_file(raw, "OTHER"), Some("1".into()));
    assert_eq!(parse_env_file(raw, "MISSING"), None);
    assert_eq!(parse_env_file("junk line\nKEY=v", "KEY"), None);
    assert_eq!(parse_env_file("KEY=", "KEY"), Some(String::new()));
}

#[test]
fn config_path_precedence() {
    assert_eq!(
        config_path(Some("/tmp/a.toml".into()), Some("/tmp/b.toml".into()), true),
        Ok("/tmp/a.toml".into())
    );
    assert_eq!(config_path(None, Some("/tmp/b.toml".into()), true), Ok("/tmp/b.toml".into()));
    assert_eq!(config_path(None, Some(String::new()), true), Ok("/etc/rsagent/config.toml".into()));
    assert_eq!(
        config_path(None, None, false),
        Err(RsagentError::Config(
            "no config file: pass --config or set RSAGENT_CONFIG or install /etc/rsagent/config.toml"
                .into()
        ))
    );
}

#[test]
fn redaction_masks_any_key() {
    assert_eq!(redact_api_key(&Some("secret".into())), Some("***".into()));
    assert_eq!(redact_api_key(&Some(String::new())), Some("***".into()));
    assert_eq!(redact_api_key(&None), None);
}

#[test]
fn tool_copy_is_equal() {
    let mut t = tool("j", "journal.query", true);
    t.params.insert("unit", ParamValue::Str("nginx".into()));
    t.params.insert("allowed", ParamValue::Array(vec![Some("a".into()), None]));
    assert_eq!(t.copy(), t);
}
