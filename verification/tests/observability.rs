use rsagent::backends::observability::{
    alertmanager_url, alerts_text_of, filter_alertmanager_alerts, format_prometheus_response,
    loki_url_at, prometheus_text_of,
    parse_since_ns, prometheus_url, response_body, since_ns_fits, validate_alertmanager,
    validate_loki, validate_prometheus, Alert, AlertmanagerInput, LokiInput, PromResponse,
    PromSeries, PrometheusInput,
};
use rsagent::error::RsagentError;
use rsagent::params::{ParamMap, ParamValue};

#[test]
fn prometheus_url_encodes_the_trimmed_query() {
    let p = ParamMap::new();
    assert_eq!(
        prometheus_url(&p, &PrometheusInput { query: "  up == 0 \n".into() }),
        Ok("http://127.0.0.1:9090/api/v1/query?query=up%20%3D%3D%200".to_string())
    );
    assert_eq!(
        prometheus_url(&p, &PrometheusInput { query: "rate(x[5m])~é".into() }),
        Ok("http://127.0.0.1:9090/api/v1/query?query=rate%28x%5B5m%5D%29~%C3%A9".to_string())
    );
}

#[test]
fn prometheus_query_must_not_be_empty() {
    assert_eq!(
        prometheus_url(&ParamMap::new(), &PrometheusInput { query: "   ".into() }),
        Err(RsagentError::Tool {
            name: "prometheus.query".into(),
            message: "query must not be empty".into()
        })
    );
}

#[test]
fn prometheus_query_prefixes_and_base_url() {
    let mut p = ParamMap::new();
    p.insert("allowed_query_prefixes", ParamValue::Array(vec![Some("up".into())]));
    p.insert("base_url", ParamValue::Str("http://localhost:9999//".into()));
    assert_eq!(
        prometheus_url(&p, &PrometheusInput { query: "up".into() }),
        Ok("http://localhost:9999/api/v1/query?query=up".to_string())
    );
    assert_eq!(
        prometheus_url(&p, &PrometheusInput { query: "down".into() }),
        Err(RsagentError::Tool {
            name: "prometheus.query".into(),
            message: "query must start with one of the configured allowed_query_prefixes prefixes"
                .into()
        })
    );
    let mut remote = ParamMap::new();
    remote.insert("base_url", ParamValue::Str("http://10.0.0.1:9090".into()));
    assert!(prometheus_url(&remote, &PrometheusInput { query: "up".into() }).is_err());
    assert!(validate_prometheus(&remote).is_err());
    assert_eq!(validate_prometheus(&ParamMap::new()), Ok(()));
    assert_eq!(validate_loki(&ParamMap::new()), Ok(()));
    assert_eq!(validate_alertmanager(&ParamMap::new()), Ok(()));
}

#[test]
fn loki_url_has_limit_and_time_range() {
    let end = 10_000_000_000_000u128;
    assert_eq!(
        loki_url_at(&ParamMap::new(), &LokiInput { query: "{job=\"x\"}".into(), limit: None }, end),
        Ok(format!(
            "http://127.0.0.1:3030/loki/api/v1/query_range?query=%7Bjob%3D%22x%22%7D&limit=200&start={}&end={}",
            end - 3_600_000_000_000,
            end
        ))
    );
    let mut p = ParamMap::new();
    p.insert("max_lines", ParamValue::Integer(1000));
    p.insert("since", ParamValue::Str("-30m".into()));
    assert_eq!(
        loki_url_at(&p, &LokiInput { query: "a".into(), limit: Some(800) }, end),
        Ok(format!(
            "http://127.0.0.1:3030/loki/api/v1/query_range?query=a&limit=500&start={}&end={}",
            end - 1_800_000_000_000,
            end
        ))
    );
    assert_eq!(
        loki_url_at(&p, &LokiInput { query: "a".into(), limit: Some(3) }, 5),
        Ok("http://127.0.0.1:3030/loki/api/v1/query_range?query=a&limit=3&start=0&end=5".to_string())
    );
}

#[test]
fn loki_since_values() {
    assert_eq!(parse_since_ns("-2h"), 7_200_000_000_000);
    assert_eq!(parse_since_ns("  -5m "), 300_000_000_000);
    assert_eq!(parse_since_ns("1h"), 3_600_000_000_000);
    assert_eq!(parse_since_ns("-xh"), 3_600_000_000_000);
    assert_eq!(parse_since_ns("-3d"), 3_600_000_000_000);
    assert!(since_ns_fits("-2h"));
    assert!(!since_ns_fits("-340282366920938463463374607431768211455h"));
}

#[test]
fn alertmanager_endpoint() {
    assert_eq!(
        alertmanager_url(&ParamMap::new()),
        Ok("http://127.0.0.1:9093/api/v2/alerts".to_string())
    );
}

#[test]
fn body_follows_the_status_line() {
    assert_eq!(response_body("HTTP 200\n{\"a\":1}\nx"), "{\"a\":1}\nx");
    assert_eq!(response_body("no newline"), "no newline");
}

fn series(labels: &[(&str, &str)], value: Option<&str>) -> PromSeries {
    PromSeries {
        metric: Some(labels.iter().map(|(k, v)| (k.to_string(), v.to_string())).collect()),
        value: value.map(|v| v.to_string()),
    }
}

#[test]
fn prometheus_results_are_numbered() {
    let resp = PromResponse {
        status: Some("success".into()),
        result: Some(vec![
            series(&[("job", "\"node\""), ("instance", "\"a\"")], Some("\"1\"")),
            PromSeries { metric: None, value: None },
        ]),
    };
    assert_eq!(
        prometheus_text_of("{}", Ok(resp)),
        Ok("Prometheus results:\n1. {job=\"node\", instance=\"a\"} => \"1\"\n2. {} => ?\n".to_string())
    );
}

#[test]
fn prometheus_edge_answers() {
    let none = PromResponse { status: Some("success".into()), result: None };
    let empty = PromResponse { status: Some("success".into()), result: Some(vec![]) };
    let failed = PromResponse { status: Some("error".into()), result: None };
    assert_eq!(
        prometheus_text_of("b", Ok(none)),
        Ok("Prometheus: no series matched the query".to_string())
    );
    assert_eq!(
        prometheus_text_of("b", Ok(empty)),
        Ok("Prometheus: no series matched the query".to_string())
    );
    assert_eq!(prometheus_text_of("{\"status\":\"error\"}", Ok(failed)), Ok("{\"status\":\"error\"}".to_string()));
    assert_eq!(
        prometheus_text_of("b", Err("expected value".into())),
        Err(RsagentError::Tool {
            name: "prometheus.query".into(),
            message: "invalid JSON: expected value".into()
        })
    );
}

#[test]
fn prometheus_shows_at_most_fifty_series() {
    let many: Vec<PromSeries> = (0..60).map(|_| series(&[], Some("0"))).collect();
    let out = prometheus_text_of("", Ok(PromResponse { status: Some("success".into()), result: Some(many) }))
        .unwrap();
    assert!(out.starts_with("Prometheus results:\n1. {} => 0\n"));
    assert!(out.contains("\n50. {} => 0\n"));
    assert!(!out.contains("51. "));
    assert!(out.ends_with("\n[showing 50 of 60 series]"));
}

fn alert(name: &str, severity: &str, instance: Option<&str>, host: Option<&str>) -> Alert {
    let mut labels = vec![
        ("alertname".to_string(), Some(name.to_string())),
        ("severity".to_string(), Some(severity.to_string())),
    ];
    if let Some(i) = instance {
        labels.push(("instance".to_string(), Some(i.to_string())));
    }
    if let Some(h) = host {
        labels.push(("host".to_string(), Some(h.to_string())));
    }
    Alert {
        labels: Some(labels),
        annotations: Some(vec![
            ("summary".to_string(), Some(format!("{name} fired"))),
            ("impact".to_string(), None),
        ]),
    }
}

fn no_filter() -> AlertmanagerInput {
    AlertmanagerInput { alertname: None, severity: None }
}

#[test]
fn alerts_are_listed_with_labels() {
    let alerts = vec![
        alert("DiskFull", "critical", Some("node1"), Some("h")),
        alert("HighLoad", "warning", None, Some("h2")),
        Alert { labels: None, annotations: None },
    ];
    assert_eq!(
        alerts_text_of(Ok(alerts), &no_filter()),
        Ok("Firing alerts:\n- DiskFull (critical) @ node1\n  summary: DiskFull fired\n  impact: \n- HighLoad (warning) @ h2\n  summary: HighLoad fired\n  impact: \n- unknown (unknown) @ -\n  summary: \n  impact: \n".to_string())
    );
}

#[test]
fn alerts_are_filtered() {
    let alerts = vec![
        alert("DiskFull", "critical", Some("n1"), None),
        alert("DiskSlow", "warning", Some("n2"), None),
        alert("HighLoad", "critical", Some("n3"), None),
    ];
    let f = AlertmanagerInput { alertname: Some("Disk".into()), severity: Some("critical".into()) };
    assert_eq!(
        alerts_text_of(Ok(alerts.clone()), &f),
        Ok("Firing alerts:\n- DiskFull (critical) @ n1\n  summary: DiskFull fired\n  impact: \n".to_string())
    );
    let f = AlertmanagerInput { alertname: Some("Memory".into()), severity: None };
    assert_eq!(
        alerts_text_of(Ok(alerts), &f),
        Ok("Alertmanager: no alerts matched the filter".to_string())
    );
    assert_eq!(
        alerts_text_of(Ok(vec![]), &no_filter()),
        Ok("Alertmanager: no firing alerts".to_string())
    );
    assert_eq!(
        alerts_text_of(Err("eof".into()), &no_filter()),
        Err(RsagentError::Tool {
            name: "alertmanager.alerts".into(),
            message: "invalid alerts JSON: eof".into()
        })
    );
}

#[test]
fn alerts_stop_at_fifty() {
    let alerts: Vec<Alert> = (0..55).map(|_| alert("A", "w", None, None)).collect();
    let out = alerts_text_of(Ok(alerts), &no_filter()).unwrap();
    assert_eq!(out.matches("- A (w) @ -\n").count(), 50);
    assert!(out.ends_with("\n[truncated to 50 alerts]"));
}

#[test]
fn prometheus_answer_is_parsed_from_the_body() {
    let raw = "HTTP 200\n{\"status\":\"success\",\"data\":{\"result\":[{\"metric\":{\"job\":\"node\"},\"value\":[1700000000.5,\"1\"]},{\"metric\":{},\"value\":[]}]}}";
    assert_eq!(
        format_prometheus_response(raw),
        Ok("Prometheus results:\n1. {job=\"node\"} => \"1\"\n2. {} => ?\n".to_string())
    );
    let failed = "HTTP 400\n{\"status\":\"error\",\"error\":\"bad query\"}";
    assert_eq!(
        format_prometheus_response(failed),
        Ok("{\"status\":\"error\",\"error\":\"bad query\"}".to_string())
    );
    let none = "HTTP 200\n{\"status\":\"success\",\"data\":{\"result\":[]}}";
    assert_eq!(
        format_prometheus_response(none),
        Ok("Prometheus: no series matched the query".to_string())
    );
    match format_prometheus_response("HTTP 502\nnot json") {
        Err(RsagentError::Tool { name, message }) => {
            assert_eq!(name, "prometheus.query");
            assert!(message.starts_with("invalid JSON: "));
        }
        other => panic!("unexpected {other:?}"),
    }
}

#[test]
fn alertmanager_answer_is_parsed_from_the_body() {
    let raw = "HTTP 200\n[{\"labels\":{\"alertname\":\"DiskFull\",\"severity\":\"critical\",\"instance\":\"n1\"},\"annotations\":{\"summary\":\"disk is full\",\"impact\":7}},{\"labels\":{\"alertname\":\"Load\",\"severity\":\"warning\",\"host\":\"h\"}}]";
    assert_eq!(
        filter_alertmanager_alerts(raw, &no_filter()),
        Ok("Firing alerts:\n- DiskFull (critical) @ n1\n  summary: disk is full\n  impact: \n- Load (warning) @ h\n  summary: \n  impact: \n".to_string())
    );
    let f = AlertmanagerInput { alertname: None, severity: Some("warning".into()) };
    assert_eq!(
        filter_alertmanager_alerts(raw, &f),
        Ok("Firing alerts:\n- Load (warning) @ h\n  summary: \n  impact: \n".to_string())
    );
    assert_eq!(
        filter_alertmanager_alerts("HTTP 200\n[]", &no_filter()),
        Ok("Alertmanager: no firing alerts".to_string())
    );
    match filter_alertmanager_alerts("HTTP 200\n{}", &no_filter()) {
        Err(RsagentError::Tool { name, message }) => {
            assert_eq!(name, "alertmanager.alerts");
            assert!(message.starts_with("invalid alerts JSON: "));
        }
        other => panic!("unexpected {other:?}"),
    }
}
