use rsagent::backends::command::{command_output, command_output_cut_ok, MAX_COMMAND_OUTPUT};
use rsagent::backends::docker::{
    format_containers, validate_docker, validate_name_prefix, ContainerInfo,
};
use rsagent::backends::fail2ban::{fail2ban_args, validate_fail2ban, validate_jail, Fail2banInput};
use rsagent::backends::gluster::{gluster_args, validate_gluster};
use rsagent::backends::http_client::{body_cut_ok, format_http_response, MAX_BODY_BYTES};
use rsagent::backends::http_health::{
    ensure_allowed_urls, health_check, validate_health, HttpHealthInput,
};
use rsagent::backends::tailscale::validate_tailscale;
use rsagent::backends::zfs::{pool_status_report, zpool_run_args};
use rsagent::error::RsagentError;
use rsagent::params::{ParamMap, ParamValue};

fn strs(items: &[&str]) -> ParamValue {
    ParamValue::Array(items.iter().map(|s| Some(s.to_string())).collect())
}

#[test]
fn command_output_joins_trimmed_streams() {
    assert_eq!(
        command_output("zfs", "zpool", true, "exit status: 0", " out \n", "\nerr\n"),
        Ok("out\nerr".to_string())
    );
    assert_eq!(command_output("zfs", "zpool", true, "0", "only out", "  "), Ok("only out".to_string()));
    assert_eq!(command_output("zfs", "zpool", false, "1", "", "only err"), Ok("only err".to_string()));
}

#[test]
fn command_without_output() {
    assert_eq!(
        command_output("zfs", "zpool", true, "exit status: 0", "  ", ""),
        Ok("`zpool` completed successfully with no output".to_string())
    );
    assert_eq!(
        command_output("zfs", "zpool", false, "exit status: 2", "", " \n"),
        Err(RsagentError::Tool { name: "zfs".into(), message: "`zpool` exited with exit status: 2".into() })
    );
}

#[test]
fn long_command_output_is_cut() {
    let long = "z".repeat(MAX_COMMAND_OUTPUT + 10);
    assert!(command_output_cut_ok(&long, ""));
    assert_eq!(
        command_output("t", "p", true, "0", &long, ""),
        Ok(format!("{}\n[truncated]", "z".repeat(MAX_COMMAND_OUTPUT)))
    );
    let mut bad = "z".repeat(MAX_COMMAND_OUTPUT - 1);
    bad.push('ß');
    assert!(!command_output_cut_ok(&bad, ""));
}

#[test]
fn http_response_has_status_then_body() {
    assert_eq!(format_http_response(200, "ok"), "HTTP 200\nok");
    assert_eq!(format_http_response(404, ""), "HTTP 404\n");
    let long = "b".repeat(MAX_BODY_BYTES + 1);
    assert!(body_cut_ok(&long));
    assert_eq!(
        format_http_response(200, &long),
        format!("HTTP 200\n{}\n[body truncated]", "b".repeat(MAX_BODY_BYTES))
    );
    let mut bad = "b".repeat(MAX_BODY_BYTES - 1);
    bad.push('€');
    assert!(!body_cut_ok(&bad));
}

#[test]
fn docker_name_prefix() {
    let mut p = ParamMap::new();
    assert_eq!(validate_name_prefix(&p, "anything"), Ok(()));
    p.insert("name_prefix", ParamValue::Str("app-".into()));
    assert_eq!(validate_name_prefix(&p, "app-web"), Ok(()));
    assert_eq!(
        validate_name_prefix(&p, "db"),
        Err(RsagentError::Tool {
            name: "docker.list".into(),
            message: "filter must start with configured name_prefix `app-`".into()
        })
    );
    assert_eq!(validate_docker(&p), Ok(()));
}

fn container(name: Option<&str>, state: Option<&str>) -> ContainerInfo {
    ContainerInfo {
        names: name.map(|n| vec![n.to_string()]),
        state: state.map(|s| s.to_string()),
        status: Some("Up 2 hours".into()),
        image: Some("nginx:1".into()),
    }
}

#[test]
fn containers_are_listed() {
    let cs = vec![
        container(Some("/app-web"), Some("running")),
        container(Some("//app-db"), None),
        container(Some("/other"), Some("exited")),
        container(None, Some("running")),
    ];
    assert_eq!(
        format_containers(&cs, Some("app-"), None),
        "Containers:\n- app-web (running/Up 2 hours) image=nginx:1\n- app-db (unknown/Up 2 hours) image=nginx:1\n"
    );
    assert_eq!(
        format_containers(&cs, None, Some("the")),
        "Containers:\n- other (exited/Up 2 hours) image=nginx:1\n"
    );
    assert_eq!(
        format_containers(&cs, None, Some("?")),
        "Containers:\n- ? (running/Up 2 hours) image=nginx:1\n"
    );
    assert_eq!(format_containers(&cs, Some("zzz"), None), "No matching containers");
}

#[test]
fn containers_stop_at_one_hundred() {
    let cs: Vec<ContainerInfo> = (0..120).map(|_| container(Some("/c"), Some("running"))).collect();
    let out = format_containers(&cs, None, None);
    assert_eq!(out.matches("- c (running/").count(), 100);
    assert!(out.ends_with("\n[truncated to 100 containers]"));
}

#[test]
fn fail2ban_jails() {
    let mut p = ParamMap::new();
    assert_eq!(validate_jail(&p, "sshd"), Ok(()));
    assert_eq!(
        fail2ban_args(&p, &Fail2banInput { jail: None }),
        Ok(vec!["status".to_string()])
    );
    p.insert("allowed_jails", strs(&["sshd", "nginx"]));
    assert_eq!(
        fail2ban_args(&p, &Fail2banInput { jail: Some("nginx".into()) }),
        Ok(vec!["status".to_string(), "nginx".to_string()])
    );
    assert_eq!(
        fail2ban_args(&p, &Fail2banInput { jail: Some("postfix".into()) }),
        Err(RsagentError::Tool {
            name: "fail2ban.status".into(),
            message: "jail `postfix` is not in allowed_jails".into()
        })
    );
    let mut q = ParamMap::new();
    q.insert("allowed_jails", ParamValue::Str("sshd".into()));
    assert_eq!(
        validate_jail(&q, "sshd"),
        Err(RsagentError::Config("params.allowed_jails must be an array of strings".into()))
    );
    assert_eq!(validate_fail2ban(&q), Ok(()));
}

#[test]
fn gluster_volume() {
    let mut p = ParamMap::new();
    assert_eq!(validate_gluster(&p), Err(RsagentError::Config("missing params.volume".into())));
    assert_eq!(gluster_args(&p), Err(RsagentError::Config("missing params.volume".into())));
    p.insert("volume", ParamValue::Str("gv0".into()));
    assert_eq!(validate_gluster(&p), Ok(()));
    assert_eq!(
        gluster_args(&p),
        Ok(vec!["volume".to_string(), "status".to_string(), "gv0".to_string()])
    );
    assert_eq!(validate_tailscale(&p), Ok(()));
}

#[test]
fn health_allow_list() {
    let mut p = ParamMap::new();
    assert_eq!(
        validate_health(&p),
        Err(RsagentError::Config("http.health requires params.allowed_urls".into()))
    );
    p.insert("allowed_urls", strs(&[]));
    assert_eq!(
        validate_health(&p),
        Err(RsagentError::Config("http.health requires non-empty params.allowed_urls".into()))
    );
    p.insert("allowed_urls", strs(&["http://127.0.0.1:8080/health", "http://example.org/"]));
    assert_eq!(
        validate_health(&p),
        Err(RsagentError::Config(
            "URL host `example.org` is not allowed; only 127.0.0.1, localhost, and [::1]".into()
        ))
    );
    p.insert("allowed_urls", strs(&["http://127.0.0.1:8080/health", "http://localhost/ok"]));
    assert_eq!(validate_health(&p), Ok(()));
    assert_eq!(
        ensure_allowed_urls(&p),
        Ok(vec!["http://127.0.0.1:8080/health".to_string(), "http://localhost/ok".to_string()])
    );
    assert_eq!(
        health_check(&p, &HttpHealthInput { url: "http://localhost/ok".into() }),
        Ok(())
    );
    assert_eq!(
        health_check(&p, &HttpHealthInput { url: "http://localhost/other".into() }),
        Err(RsagentError::Tool {
            name: "http.health".into(),
            message: "url `http://localhost/other` is not in allowed_urls".into()
        })
    );
    let mut q = ParamMap::new();
    q.insert("allowed_urls", ParamValue::Array(vec![None]));
    assert_eq!(
        ensure_allowed_urls(&q),
        Err(RsagentError::Config("allowed_urls entries must be strings".into()))
    );
}

fn svec(items: &[&str]) -> Vec<String> {
    items.iter().map(|s| s.to_string()).collect()
}

#[test]
fn zpool_runs_per_pool() {
    assert_eq!(zpool_run_args(&vec![]), vec![svec(&["status", "-x"])]);
    assert_eq!(
        zpool_run_args(&svec(&["tank", "backup"])),
        vec![svec(&["status", "-x", "tank"]), svec(&["status", "-x", "backup"])]
    );
}

#[test]
fn zpool_report_sections() {
    assert_eq!(
        pool_status_report(&vec![], &svec(&["all pools are healthy"])),
        "all pools are healthy"
    );
    assert_eq!(
        pool_status_report(&svec(&["tank", "backup"]), &svec(&["ok", "degraded"])),
        "=== tank ===\nok\n\n=== backup ===\ndegraded\n\n"
    );
}
