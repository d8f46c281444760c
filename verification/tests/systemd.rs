use rsagent::backends::systemd::{
    format_unit_list, format_unit_status, list_units_filter, unit_status_check, UnitEntry,
};
use rsagent::backends::{ListUnitsInput, UnitInput};
use rsagent::error::RsagentError;
use rsagent::params::{ParamMap, ParamValue};

fn allowed(names: &[&str]) -> ParamMap {
    let mut p = ParamMap::new();
    p.insert(
        "allowed_units",
        ParamValue::Array(names.iter().map(|s| Some(s.to_string())).collect()),
    );
    p
}

#[test]
fn unit_status_only_for_listed_units() {
    let p = allowed(&["nginx.service", "backup.timer"]);
    assert_eq!(unit_status_check(&p, &UnitInput { unit: "nginx.service".into() }), Ok(()));
    assert_eq!(
        unit_status_check(&p, &UnitInput { unit: "sshd.service".into() }),
        Err(RsagentError::Tool {
            name: "systemd.unit_status".into(),
            message: "unit `sshd.service` is not in allowed_units".into()
        })
    );
    assert_eq!(
        unit_status_check(&p, &UnitInput { unit: "nginx".into() }),
        Err(RsagentError::Tool {
            name: "systemd.unit_status".into(),
            message: "only .service, .timer, .socket, and .target units are allowed".into()
        })
    );
    assert_eq!(
        unit_status_check(&ParamMap::new(), &UnitInput { unit: "nginx.service".into() }),
        Err(RsagentError::Config("systemd.unit_status requires params.allowed_units".into()))
    );
}

#[test]
fn unit_status_text() {
    assert_eq!(
        format_unit_status("nginx.service", "active", "running", "A web server"),
        "Unit: nginx.service\nState: active (running)\nDescription: A web server"
    );
}

#[test]
fn list_filter_prefers_the_call() {
    let mut p = ParamMap::new();
    assert_eq!(list_units_filter(&p, &ListUnitsInput { filter: None }), None);
    p.insert("filter", ParamValue::Str("ng".into()));
    assert_eq!(list_units_filter(&p, &ListUnitsInput { filter: None }), Some("ng".into()));
    assert_eq!(
        list_units_filter(&p, &ListUnitsInput { filter: Some("ssh".into()) }),
        Some("ssh".into())
    );
}

fn unit(name: &str, load: &str, active: &str) -> UnitEntry {
    UnitEntry { name: name.into(), load_state: load.into(), active_state: active.into() }
}

#[test]
fn unit_list_filters_by_substring() {
    let units = vec![
        unit("nginx.service", "loaded", "active"),
        unit("sshd.service", "loaded", "inactive"),
        unit("nginx-exporter.service", "not-found", "failed"),
    ];
    assert_eq!(
        format_unit_list(&units, Some("nginx")),
        "nginx.service → active (loaded)\nnginx-exporter.service → failed (not-found)\n"
    );
    assert_eq!(
        format_unit_list(&units, None),
        "nginx.service → active (loaded)\nsshd.service → inactive (loaded)\nnginx-exporter.service → failed (not-found)\n"
    );
    assert_eq!(format_unit_list(&units, Some("cron")), "No matching units");
    assert_eq!(format_unit_list(&vec![], None), "No matching units");
    assert_eq!(format_unit_list(&units, Some("")).lines().count(), 3);
}
