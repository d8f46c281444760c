use rsagent::config::{AgentConfig, Config, LlmConfig, ToolConfig};
use rsagent::error::RsagentError;
use rsagent::params::{ParamMap, ParamValue};
use rsagent::registry::ToolRegistry;

fn tool(name: &str, kind: &str, enabled: bool) -> ToolConfig {
    ToolConfig {
        name: name.into(),
        description: format!("{name} tool"),
        kind: kind.into(),
        enabled,
        params: ParamMap::new(),
    }
}

fn config_with(tools: Vec<ToolConfig>) -> Config {
    Config { llm: LlmConfig::default(), agent: AgentConfig::default(), tools }
}

#[test]
fn registry_keeps_enabled_checked_tools() {
    let c = config_with(vec![
        tool("mem", "host.memory", true),
        tool("off", "bogus", false),
        tool("units", "systemd.list_units", true),
    ]);
    let reg = ToolRegistry::from_config(&c).unwrap();
    let names: Vec<&str> = reg.tools().iter().map(|t| t.name.as_str()).collect();
    assert_eq!(names, vec!["mem", "units"]);
}

#[test]
fn registry_needs_an_enabled_tool() {
    let c = config_with(vec![tool("off", "host.memory", false)]);
    assert_eq!(
        ToolRegistry::from_config(&c).unwrap_err(),
        RsagentError::Config(
            "no enabled tools in config; add [[tools]] entries with enabled = true".into()
        )
    );
}

#[test]
fn registry_reports_first_invalid_tool() {
    let mut journal = tool("logs", "journal.query", true);
    journal.params = ParamMap::new();
    let c = config_with(vec![tool("x", "nope", true), journal]);
    assert_eq!(
        ToolRegistry::from_config(&c).unwrap_err(),
        RsagentError::Config("tool `x`: unknown kind `nope`".into())
    );
    let mut journal = tool("logs", "journal.query", true);
    journal.params.insert("unit", ParamValue::Integer(3));
    let c = config_with(vec![journal]);
    assert_eq!(
        ToolRegistry::from_config(&c).unwrap_err(),
        RsagentError::Config("missing params.unit".into())
    );
}

#[test]
fn list_shows_declared_tools() {
    let c = config_with(vec![
        tool("mem", "host.memory", true),
        tool("off", "host.disk", false),
    ]);
    assert_eq!(
        ToolRegistry::list(&c),
        vec![("mem", "host.memory", "mem tool"), ("off", "host.disk", "off tool")]
    );
}
