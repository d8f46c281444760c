use rsagent::backends::{
    ensure_allowed_units, param_string, param_string_opt, param_u32, tool_kind, truncate,
    truncation_is_safe, validate_tool, validate_unit, ToolKind, MAX_OUTPUT_CHARS,
};
use rsagent::config::ToolConfig;
use rsagent::error::RsagentError;
use rsagent::params::{ParamMap, ParamValue};

fn tool(name: &str, kind: &str, params: ParamMap) -> ToolConfig {
    ToolConfig {
        name: name.into(),
        description: String::new(),
        kind: kind.into(),
        enabled: true,
        params,
    }
}

fn units(items: &[Option<&str>]) -> ParamMap {
    let mut p = ParamMap::new();
    p.insert(
        "allowed_units",
        ParamValue::Array(items.iter().map(|o| o.map(|s| s.to_string())).collect()),
    );
    p
}

#[test]
fn tool_kinds_are_recognised() {
    let cases = [
        ("host.memory", ToolKind::HostMemory),
        ("host.disk", ToolKind::HostDisk),
        ("systemd.unit_status", ToolKind::SystemdUnitStatus),
        ("systemd.list_units", ToolKind::SystemdListUnits),
        ("journal.query", ToolKind::JournalQuery),
    ];
    for (kind, expected) in cases {
        assert_eq!(tool_kind(&tool("t", kind, ParamMap::new())), Ok(expected));
    }
    assert_eq!(
        tool_kind(&tool("t", "host.cpu", ParamMap::new())),
        Err(RsagentError::Tool { name: "t".into(), message: "unknown tool kind `host.cpu`".into() })
    );
}

#[test]
fn params_are_read_by_type() {
    let mut p = ParamMap::new();
    p.insert("unit", ParamValue::Str("nginx.service".into()));
    p.insert("max_lines", ParamValue::Integer(42));
    p.insert("neg", ParamValue::Integer(-1));
    p.insert("big", ParamValue::Integer(5_000_000_000));
    assert_eq!(param_string(&p, "unit"), Ok("nginx.service".to_string()));
    assert_eq!(
        param_string(&p, "max_lines"),
        Err(RsagentError::Config("missing params.max_lines".into()))
    );
    assert_eq!(param_string(&p, "nope"), Err(RsagentError::Config("missing params.nope".into())));
    assert_eq!(param_string_opt(&p, "unit"), Some("nginx.service".to_string()));
    assert_eq!(param_string_opt(&p, "max_lines"), None);
    assert_eq!(param_u32(&p, "max_lines", 7), 42);
    assert_eq!(param_u32(&p, "neg", 7), 7);
    assert_eq!(param_u32(&p, "big", 7), 7);
    assert_eq!(param_u32(&p, "unit", 7), 7);
    assert_eq!(param_u32(&p, "nope", 7), 7);
}

#[test]
fn allowed_units_must_be_an_array_of_strings() {
    assert_eq!(
        ensure_allowed_units(&units(&[Some("a.service"), Some("b.timer")])),
        Ok(vec!["a.service".to_string(), "b.timer".to_string()])
    );
    assert_eq!(ensure_allowed_units(&units(&[])), Ok(vec![]));
    assert_eq!(
        ensure_allowed_units(&units(&[Some("a.service"), None])),
        Err(RsagentError::Config("allowed_units entries must be strings".into()))
    );
    assert_eq!(
        ensure_allowed_units(&ParamMap::new()),
        Err(RsagentError::Config("systemd.unit_status requires params.allowed_units".into()))
    );
    let mut p = ParamMap::new();
    p.insert("allowed_units", ParamValue::Str("a.service".into()));
    assert_eq!(
        ensure_allowed_units(&p),
        Err(RsagentError::Config("params.allowed_units must be an array of unit names".into()))
    );
}

#[test]
fn units_need_a_known_suffix_and_the_allow_list() {
    let allowed = vec!["nginx.service".to_string(), "backup.timer".to_string()];
    assert_eq!(validate_unit("status", "nginx.service", &allowed), Ok(()));
    assert_eq!(validate_unit("status", "backup.timer", &allowed), Ok(()));
    assert_eq!(
        validate_unit("status", "sshd.service", &allowed),
        Err(RsagentError::Tool {
            name: "status".into(),
            message: "unit `sshd.service` is not in allowed_units".into()
        })
    );
    let listed_device = vec!["dev-sda.device".to_string()];
    assert_eq!(
        validate_unit("status", "dev-sda.device", &listed_device),
        Err(RsagentError::Tool {
            name: "status".into(),
            message: "only .service, .timer, .socket, and .target units are allowed".into()
        })
    );
    assert!(validate_unit("s", "a.socket", &["a.socket".to_string()]).is_ok());
    assert!(validate_unit("s", "multi-user.target", &["multi-user.target".to_string()]).is_ok());
}

#[test]
fn short_output_is_kept() {
    assert_eq!(truncate("hello"), "hello");
    let exact = "x".repeat(MAX_OUTPUT_CHARS);
    assert!(truncation_is_safe(&exact));
    assert_eq!(truncate(&exact), exact);
}

#[test]
fn long_output_is_cut_with_a_note() {
    let long = "y".repeat(MAX_OUTPUT_CHARS + 5);
    assert!(truncation_is_safe(&long));
    let out = truncate(&long);
    assert_eq!(out, format!("{}…\n\n[truncated to 16000 chars]", "y".repeat(MAX_OUTPUT_CHARS)));
    assert!(out.len() <= MAX_OUTPUT_CHARS + "…\n\n[truncated to 16000 chars]".len());
}

#[test]
fn cut_inside_a_character_is_not_safe() {
    let mut s = "a".repeat(MAX_OUTPUT_CHARS - 1);
    s.push('é');
    s.push_str("tail");
    assert!(!truncation_is_safe(&s));
    let mut t = "a".repeat(MAX_OUTPUT_CHARS - 2);
    t.push('é');
    t.push_str("tail");
    assert!(truncation_is_safe(&t));
    assert_eq!(truncate(&t), format!("{}é…\n\n[truncated to 16000 chars]", "a".repeat(MAX_OUTPUT_CHARS - 2)));
}

#[test]
fn tool_declarations_are_checked() {
    assert_eq!(validate_tool(&tool("m", "host.memory", ParamMap::new())), Ok(()));
    assert_eq!(validate_tool(&tool("d", "host.disk", ParamMap::new())), Ok(()));
    assert_eq!(validate_tool(&tool("l", "systemd.list_units", ParamMap::new())), Ok(()));
    assert_eq!(
        validate_tool(&tool("s", "systemd.unit_status", ParamMap::new())),
        Err(RsagentError::Config("systemd.unit_status requires params.allowed_units".into()))
    );
    assert_eq!(validate_tool(&tool("s", "systemd.unit_status", units(&[Some("a.service")]))), Ok(()));
    assert_eq!(
        validate_tool(&tool("j", "journal.query", ParamMap::new())),
        Err(RsagentError::Config("missing params.unit".into()))
    );
    let mut p = ParamMap::new();
    p.insert("unit", ParamValue::Str("nginx.service".into()));
    assert_eq!(validate_tool(&tool("j", "journal.query", p)), Ok(()));
    assert_eq!(
        validate_tool(&tool("z", "zfs", ParamMap::new())),
        Err(RsagentError::Config("tool `z`: unknown kind `zfs`".into()))
    );
}
