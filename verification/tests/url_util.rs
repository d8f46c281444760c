use rsagent::backends::url_util::{
    ensure_allowed_prefixes, param_base_url, validate_localhost_url,
};
use rsagent::error::RsagentError;
use rsagent::params::{ParamMap, ParamValue};

#[test]
fn accepts_loopback_hosts() {
    validate_localhost_url("http://127.0.0.1:9090").unwrap();
    validate_localhost_url("http://localhost:9093/api/v2/alerts").unwrap();
}

#[test]
fn rejects_remote_hosts() {
    assert!(validate_localhost_url("http://example.com").is_err());
}

#[test]
fn accepts_ipv6_loopback() {
    validate_localhost_url("http://[::1]:3030").unwrap();
}

#[test]
fn remote_host_error_names_the_host() {
    assert_eq!(
        validate_localhost_url("http://example.com"),
        Err(RsagentError::Config(
            "URL host `example.com` is not allowed; only 127.0.0.1, localhost, and [::1]".into()
        ))
    );
}

#[test]
fn unparsable_url_is_a_config_error() {
    match validate_localhost_url("not a url") {
        Err(RsagentError::Config(m)) => assert!(m.starts_with("invalid URL `not a url`: ")),
        other => panic!("unexpected {other:?}"),
    }
}

#[test]
fn url_without_host_is_rejected() {
    assert_eq!(
        validate_localhost_url("unix:/run/socket"),
        Err(RsagentError::Config(
            "URL `unix:/run/socket` must include an explicit localhost host".into()
        ))
    );
}

#[test]
fn base_url_defaults_and_drops_trailing_slashes() {
    let mut params = ParamMap::new();
    assert_eq!(
        param_base_url(&params, "base_url", "http://127.0.0.1:9090").unwrap(),
        "http://127.0.0.1:9090"
    );
    params.insert("base_url", ParamValue::Str("http://localhost:9093//".into()));
    assert_eq!(
        param_base_url(&params, "base_url", "http://127.0.0.1:9090").unwrap(),
        "http://localhost:9093"
    );
    params.insert("base_url", ParamValue::Str("http://10.0.0.1/".into()));
    assert!(param_base_url(&params, "base_url", "http://127.0.0.1:9090").is_err());
}

#[test]
fn query_prefix_allow_list() {
    let mut params = ParamMap::new();
    assert!(ensure_allowed_prefixes("prometheus.query", "up", &params, "allowed_query_prefixes").is_ok());
    params.insert("allowed_query_prefixes", ParamValue::Array(vec![]));
    assert!(ensure_allowed_prefixes("prometheus.query", "up", &params, "allowed_query_prefixes").is_ok());
    params.insert(
        "allowed_query_prefixes",
        ParamValue::Array(vec![Some(String::new()), None, Some("node_".into())]),
    );
    assert!(ensure_allowed_prefixes("prometheus.query", "node_load1", &params, "allowed_query_prefixes").is_ok());
    assert_eq!(
        ensure_allowed_prefixes("prometheus.query", "up", &params, "allowed_query_prefixes"),
        Err(RsagentError::Tool {
            name: "prometheus.query".into(),
            message: "query must start with one of the configured allowed_query_prefixes prefixes".into(),
        })
    );
    params.insert("allowed_query_prefixes", ParamValue::Str("node_".into()));
    assert_eq!(
        ensure_allowed_prefixes("prometheus.query", "up", &params, "allowed_query_prefixes"),
        Err(RsagentError::Config(
            "params.allowed_query_prefixes must be an array of strings".into()
        ))
    );
}
