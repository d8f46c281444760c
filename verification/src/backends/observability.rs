//! Prometheus, Loki and Alertmanager: the query URLs sent to the local
//! endpoints, and how their JSON answers are shown.
use vstd::prelude::*;
use vstd::string::*;
use vstd::utf8::encode_utf8;

use crate::backends::journal::{min_u32, str_param_or};
use crate::backends::url_util::{
    base_url_outcome, ensure_allowed_prefixes, param_base_url, prefix_check,
};
use crate::backends::{param_u32, spec_param_u32};
use crate::error::{text_result, unit_result, ErrorView, RsagentError};
use crate::params::{opt_str_view, ParamMap, ParamView};
use crate::text::{
    chars_of, contains, decimal, decimal_string, has_prefix, has_substring, has_suffix,
    parse_u128, parse_unsigned, str_eq, strip_prefix, strip_suffix, trim, trim_str,
};

verus! {

/// The input of `prometheus.query`.
#[derive(Debug, Clone, PartialEq)]
pub struct PrometheusInput {
    /// PromQL expression, e.g. `up == 0`.
    pub query: String,
}

/// The input of `loki.query`.
#[derive(Debug, Clone, PartialEq)]
pub struct LokiInput {
    /// LogQL expression.
    pub query: String,
    /// Maximum log lines (capped by config `max_lines`).
    pub limit: Option<u32>,
}

/// The input of `alertmanager.alerts`.
#[derive(Debug, Clone, PartialEq)]
pub struct AlertmanagerInput {
    /// Optional alertname substring filter.
    pub alertname: Option<String>,
    /// Optional severity label filter (warning, critical, etc.).
    pub severity: Option<String>,
}

/// A byte left as is in a query string: an ASCII letter or digit, or one of `-._~`.
pub open spec fn is_unreserved(b: u8) -> bool {
    (48 <= b <= 57) || (65 <= b <= 90) || (97 <= b <= 122) || b == 45 || b == 46 || b == 95 || b
        == 126
}

/// The upper-case hexadecimal digit for `d < 16`.
pub open spec fn hex_upper(d: u8) -> char {
    if d < 10 {
        (48 + d) as char
    } else {
        (55 + d) as char
    }
}

/// Percent-encoding of a byte string: unreserved bytes stay, every other
/// byte becomes `%` and two upper-case hex digits.
pub open spec fn percent_encode(bytes: Seq<u8>) -> Seq<char>
    decreases bytes.len(),
{
    if bytes.len() == 0 {
        seq![]
    } else {
        let b = bytes[0];
        (if is_unreserved(b) {
            seq![b as char]
        } else {
            seq!['%', hex_upper(b / 16), hex_upper(b % 16)]
        }) + percent_encode(bytes.drop_first())
    }
}

/// `urlencoding::encode`: percent-encodes every byte of the UTF-8 text
/// except ASCII letters, digits and `-`, `_`, `.`, `~`, with upper-case hex
/// digits (its `encode_into` and `to_hex_digit`).
#[verifier::external_body]
fn url_encode(s: &str) -> (r: String)
    ensures
        r@ == percent_encode(s.spec_bytes()),
{
    urlencoding::encode(s).into_owned()
}

/// The current time in nanoseconds since the epoch (0 before the epoch).
#[verifier::external_body]
pub fn now_ns() -> u128 {
    std::time::SystemTime::now().duration_since(std::time::UNIX_EPOCH).map(|d| d.as_nanos()).unwrap_or(0)
}

/// The number `s` denotes as a `u128`, as `str::parse` reads it.
pub open spec fn u128_number(s: Seq<char>) -> Option<nat> {
    match parse_unsigned(s) {
        Some(v) => if v <= u128::MAX {
            Some(v)
        } else {
            None
        },
        None => None,
    }
}

/// The number in `-<n><unit>`, when `t` has that form.
pub open spec fn dashed_number(t: Seq<char>, unit: Seq<char>) -> Option<nat> {
    if has_prefix(t, "-"@) && has_suffix(t.subrange(1, t.len() as int), unit) {
        u128_number(t.subrange(1, t.len() - unit.len()))
    } else {
        None
    }
}

/// How far back, in nanoseconds, a Loki `since` value reaches: `-<n>h` or
/// `-<n>m` once trimmed, and one hour for anything else.
pub open spec fn since_ns_of(since: Seq<char>) -> nat {
    let t = trim(since);
    match dashed_number(t, "h"@) {
        Some(h) => h * 3_600_000_000_000,
        None => match dashed_number(t, "m"@) {
            Some(m) => m * 60_000_000_000,
            None => 3_600_000_000_000,
        },
    }
}

/// The number of `-<n><unit>` in `t`, when `t` has that form.
fn dashed(t: &str, unit: &str) -> (r: Option<u128>)
    requires
        unit@.len() == 1,
    ensures
        r == (match dashed_number(t@, unit@) {
            Some(v) => Some(v as u128),
            None => None::<u128>,
        }),
{
    proof {
        reveal_strlit("-");
    }
    match strip_prefix(t, "-") {
        Some(rest) => match strip_suffix(rest.as_str(), unit) {
            Some(number) => {
                assert(number@ =~= t@.subrange(1, t@.len() - unit@.len()));
                parse_u128(number.as_str())
            },
            None => None,
        },
        None => None,
    }
}

/// How far back, in nanoseconds, a Loki `since` value reaches. The product
/// must fit a `u128` (the multiplication would otherwise overflow).
pub fn parse_since_ns(since: &str) -> (r: u128)
    requires
        since_ns_of(since@) <= u128::MAX,
    ensures
        r == since_ns_of(since@),
{
    proof {
        reveal_strlit("h");
        reveal_strlit("m");
    }
    let t = trim_str(since);
    if let Some(h) = dashed(t.as_str(), "h") {
        return h * 3_600_000_000_000;
    }
    if let Some(m) = dashed(t.as_str(), "m") {
        return m * 60_000_000_000;
    }
    3_600_000_000_000
}

/// Whether the reach of `since` fits a `u128`.
pub fn since_ns_fits(since: &str) -> (r: bool)
    ensures
        r == (since_ns_of(since@) <= u128::MAX),
{
    proof {
        reveal_strlit("h");
        reveal_strlit("m");
    }
    let t = trim_str(since);
    if let Some(h) = dashed(t.as_str(), "h") {
        return h.checked_mul(3_600_000_000_000).is_some();
    }
    if let Some(m) = dashed(t.as_str(), "m") {
        return m.checked_mul(60_000_000_000).is_some();
    }
    true
}

/// The checked, trimmed query and the endpoint of a query tool.
pub open spec fn query_target(
    tool: Seq<char>,
    params: Map<Seq<char>, ParamView>,
    query: Seq<char>,
    default_url: Seq<char>,
) -> Result<(Seq<char>, Seq<char>), ErrorView> {
    let q = trim(query);
    if q.len() == 0 {
        Err(ErrorView::Tool(tool, "query must not be empty"@))
    } else {
        match prefix_check(tool, q, params, "allowed_query_prefixes"@) {
            Err(e) => Err(e),
            Ok(_) => match base_url_outcome(params, "base_url"@, default_url) {
                Err(e) => Err(e),
                Ok(base) => Ok((q, base)),
            },
        }
    }
}

/// Checks a query and resolves its endpoint.
fn query_target_exec(tool: &str, params: &ParamMap, query: &str, default_url: &str) -> (r: Result<
    (String, String),
    RsagentError,
>)
    ensures
        match r {
            Ok((q, b)) => query_target(tool@, params@, query@, default_url@) == Ok::<
                (Seq<char>, Seq<char>),
                ErrorView,
            >((q@, b@)),
            Err(e) => query_target(tool@, params@, query@, default_url@) == Err::<
                (Seq<char>, Seq<char>),
                ErrorView,
            >(e@),
        },
{
    let q = trim_str(query);
    if q.as_str().is_empty() {
        return Err(RsagentError::tool(tool, "query must not be empty"));
    }
    match ensure_allowed_prefixes(tool, q.as_str(), params, "allowed_query_prefixes") {
        Ok(()) => {},
        Err(e) => return Err(e),
    }
    match param_base_url(params, "base_url", default_url) {
        Ok(base) => Ok((q, base)),
        Err(e) => Err(e),
    }
}

/// The URL a `prometheus.query` call fetches.
pub open spec fn prometheus_url_outcome(params: Map<Seq<char>, ParamView>, query: Seq<char>) -> Result<
    Seq<char>,
    ErrorView,
> {
    match query_target("prometheus.query"@, params, query, "http://127.0.0.1:9090"@) {
        Err(e) => Err(e),
        Ok((q, base)) => Ok(base + "/api/v1/query?query="@ + percent_encode(encode_utf8(q))),
    }
}

/// Checks a `prometheus.query` call and builds the URL it fetches.
pub fn prometheus_url(params: &ParamMap, input: &PrometheusInput) -> (r: Result<String, RsagentError>)
    ensures
        text_result(r) == prometheus_url_outcome(params@, input.query@),
{
    let (q, base) = match query_target_exec(
        "prometheus.query",
        params,
        input.query.as_str(),
        "http://127.0.0.1:9090",
    ) {
        Ok(t) => t,
        Err(e) => return Err(e),
    };
    let mut url = base;
    url.append("/api/v1/query?query=");
    url.append(url_encode(q.as_str()).as_str());
    Ok(url)
}

/// The URL a `loki.query` call fetches at time `end` (nanoseconds).
pub open spec fn loki_url_outcome(
    params: Map<Seq<char>, ParamView>,
    query: Seq<char>,
    limit: Option<u32>,
    end: u128,
) -> Result<Seq<char>, ErrorView> {
    match query_target("loki.query"@, params, query, "http://127.0.0.1:3030"@) {
        Err(e) => Err(e),
        Ok((q, base)) => {
            let max_lines = min_u32(spec_param_u32(params, "max_lines"@, 200), 500);
            let lim = min_u32(
                match limit {
                    Some(l) => l,
                    None => max_lines,
                },
                max_lines,
            );
            let back = since_ns_of(str_param_or(params, "since"@, "1h"@));
            let start: nat = if back >= end {
                0
            } else {
                (end - back) as nat
            };
            Ok(base + "/loki/api/v1/query_range?query="@ + percent_encode(encode_utf8(q))
                + "&limit="@ + decimal(lim as nat) + "&start="@ + decimal(start) + "&end="@
                + decimal(end as nat))
        },
    }
}

/// Checks a `loki.query` call and builds the URL it fetches at time `end`.
/// The configured `since` must have a reach that fits a `u128`.
pub fn loki_url_at(params: &ParamMap, input: &LokiInput, end: u128) -> (r: Result<String, RsagentError>)
    requires
        query_target("loki.query"@, params@, input.query@, "http://127.0.0.1:3030"@) is Ok
            ==> since_ns_of(str_param_or(params@, "since"@, "1h"@)) <= u128::MAX,
    ensures
        text_result(r) == loki_url_outcome(params@, input.query@, input.limit, end),
{
    let (q, base) = match query_target_exec(
        "loki.query",
        params,
        input.query.as_str(),
        "http://127.0.0.1:3030",
    ) {
        Ok(t) => t,
        Err(e) => return Err(e),
    };
    let p = param_u32(params, "max_lines", 200);
    let max_lines = if p <= 500 {
        p
    } else {
        500
    };
    let wanted = match input.limit {
        Some(l) => l,
        None => max_lines,
    };
    let lim = if wanted <= max_lines {
        wanted
    } else {
        max_lines
    };
    let since = match params.get("since") {
        Some(v) => match v.as_str() {
            Some(s) => s.to_owned(),
            None => String::from_str("1h"),
        },
        None => String::from_str("1h"),
    };
    let start = end.saturating_sub(parse_since_ns(since.as_str()));
    let mut url = base;
    url.append("/loki/api/v1/query_range?query=");
    url.append(url_encode(q.as_str()).as_str());
    url.append("&limit=");
    url.append(decimal_string(lim as u128).as_str());
    url.append("&start=");
    url.append(decimal_string(start).as_str());
    url.append("&end=");
    url.append(decimal_string(end).as_str());
    Ok(url)
}

/// The URL an `alertmanager.alerts` call fetches.
pub open spec fn alertmanager_url_outcome(params: Map<Seq<char>, ParamView>) -> Result<Seq<char>, ErrorView> {
    match base_url_outcome(params, "base_url"@, "http://127.0.0.1:9093"@) {
        Err(e) => Err(e),
        Ok(base) => Ok(base + "/api/v2/alerts"@),
    }
}

/// Builds the URL an `alertmanager.alerts` call fetches.
pub fn alertmanager_url(params: &ParamMap) -> (r: Result<String, RsagentError>)
    ensures
        text_result(r) == alertmanager_url_outcome(params@),
{
    let mut url = match param_base_url(params, "base_url", "http://127.0.0.1:9093") {
        Ok(b) => b,
        Err(e) => return Err(e),
    };
    url.append("/api/v2/alerts");
    Ok(url)
}

/// Checks the Prometheus endpoint of a tool declaration.
pub fn validate_prometheus(params: &ParamMap) -> (r: Result<(), RsagentError>)
    ensures
        unit_result(r) == (match base_url_outcome(params@, "base_url"@, "http://127.0.0.1:9090"@) {
            Ok(_) => Ok(()),
            Err(e) => Err(e),
        }),
{
    match param_base_url(params, "base_url", "http://127.0.0.1:9090") {
        Ok(_) => Ok(()),
        Err(e) => Err(e),
    }
}

/// Checks the Loki endpoint of a tool declaration.
pub fn validate_loki(params: &ParamMap) -> (r: Result<(), RsagentError>)
    ensures
        unit_result(r) == (match base_url_outcome(params@, "base_url"@, "http://127.0.0.1:3030"@) {
            Ok(_) => Ok(()),
            Err(e) => Err(e),
        }),
{
    match param_base_url(params, "base_url", "http://127.0.0.1:3030") {
        Ok(_) => Ok(()),
        Err(e) => Err(e),
    }
}

/// Checks the Alertmanager endpoint of a tool declaration.
pub fn validate_alertmanager(params: &ParamMap) -> (r: Result<(), RsagentError>)
    ensures
        unit_result(r) == (match base_url_outcome(params@, "base_url"@, "http://127.0.0.1:9093"@) {
            Ok(_) => Ok(()),
            Err(e) => Err(e),
        }),
{
    match param_base_url(params, "base_url", "http://127.0.0.1:9093") {
        Ok(_) => Ok(()),
        Err(e) => Err(e),
    }
}

/// The body of an HTTP answer shown as `HTTP <status>` then the body: what
/// follows the first line break, or the whole text when there is none.
pub open spec fn body_of(raw: Seq<char>) -> Seq<char> {
    match crate::text::split_once(raw, '\n') {
        Some((_, b)) => b,
        None => raw,
    }
}

/// The body of an HTTP answer.
pub fn response_body(raw: &str) -> (r: String)
    ensures
        r@ == body_of(raw@),
{
    match crate::text::split_once_char(raw, '\n') {
        Some((_, b)) => b,
        None => raw.to_owned(),
    }
}

/// One series of a Prometheus answer, as its JSON texts: the labels of its
/// `metric` object (when it is an object), each value rendered as JSON, and
/// `value[1]` rendered as JSON (when present).
#[derive(Debug, Clone, PartialEq)]
pub struct PromSeries {
    pub metric: Option<Vec<(String, String)>>,
    pub value: Option<String>,
}

/// A Prometheus answer: its `status` when that is a string, and the series
/// of `data.result` when it is an array.
#[derive(Debug, Clone, PartialEq)]
pub struct PromResponse {
    pub status: Option<String>,
    pub result: Option<Vec<PromSeries>>,
}

/// The abstract value of a [`PromSeries`].
pub struct PromSeriesView {
    pub metric: Option<Seq<(Seq<char>, Seq<char>)>>,
    pub value: Option<Seq<char>>,
}

/// The abstract value of a [`PromResponse`].
pub struct PromResponseView {
    pub status: Option<Seq<char>>,
    pub result: Option<Seq<PromSeriesView>>,
}

/// Label pairs by their views.
pub open spec fn labels_view(ls: Seq<(String, String)>) -> Seq<(Seq<char>, Seq<char>)> {
    ls.map_values(|p: (String, String)| (p.0@, p.1@))
}

impl View for PromSeries {
    type V = PromSeriesView;

    open spec fn view(&self) -> PromSeriesView {
        PromSeriesView {
            metric: match self.metric {
                Some(m) => Some(labels_view(m@)),
                None => None,
            },
            value: opt_str_view(self.value),
        }
    }
}

/// A list of series by their views.
pub open spec fn series_views(ss: Seq<PromSeries>) -> Seq<PromSeriesView> {
    ss.map_values(|s: PromSeries| s@)
}

impl View for PromResponse {
    type V = PromResponseView;

    open spec fn view(&self) -> PromResponseView {
        PromResponseView {
            status: opt_str_view(self.status),
            result: match self.result {
                Some(ss) => Some(series_views(ss@)),
                None => None,
            },
        }
    }
}

/// What `serde_json::from_str` into a JSON value, read as a
/// [`PromResponse`], gives for a Prometheus answer body: the answer, or the
/// parse error's message.
pub uninterp spec fn prometheus_json(body: Seq<char>) -> Result<PromResponseView, Seq<char>>;

/// A parsed Prometheus answer by its views.
pub open spec fn prom_result_view(r: Result<PromResponse, String>) -> Result<PromResponseView, Seq<char>> {
    match r {
        Ok(p) => Ok(p@),
        Err(e) => Err(e@),
    }
}

/// Parses a Prometheus answer body with `serde_json::from_str` into a
/// `serde_json::Value` and reads `status` (`Value::as_str`),
/// `data.result` (`Value::as_array`), and of each series its `metric`
/// object (`Value::as_object`, its values rendered with `Value::to_string`)
/// and `value[1]` (rendered with `Value::to_string`). The contract names the
/// result: JSON parsing and rendering are `serde_json`'s, and the result
/// depends on the body alone.
#[verifier::external_body]
fn parse_prometheus(body: &str) -> (r: Result<PromResponse, String>)
    ensures
        prom_result_view(r) == prometheus_json(body@),
{
    let j: serde_json::Value = serde_json::from_str(body).map_err(|e| e.to_string())?;
    Ok(PromResponse {
        status: j["status"].as_str().map(|s| s.to_string()),
        result: j["data"]["result"].as_array().map(|ss| ss.iter().map(|s| PromSeries {
            metric: s["metric"].as_object().map(|m| m.iter().map(|(k, v)| (k.clone(), v.to_string())).collect()),
            value: s["value"].as_array().and_then(|v| v.get(1)).map(|v| v.to_string()),
        }).collect()),
    })
}

/// `k=v` pairs joined by `, `.
pub open spec fn join_labels(ls: Seq<(Seq<char>, Seq<char>)>) -> Seq<char>
    decreases ls.len(),
{
    if ls.len() == 0 {
        seq![]
    } else if ls.len() == 1 {
        ls[0].0 + "="@ + ls[0].1
    } else {
        join_labels(ls.drop_last()) + ", "@ + ls.last().0 + "="@ + ls.last().1
    }
}

/// How series number `idx` (from 0) is shown.
pub open spec fn series_line(idx: nat, s: PromSeriesView) -> Seq<char> {
    decimal(idx + 1) + ". {"@ + (match s.metric {
        Some(m) => join_labels(m),
        None => seq![],
    }) + "} => "@ + (match s.value {
        Some(v) => v,
        None => "?"@,
    }) + "\n"@
}

/// How the first series are shown.
pub open spec fn series_lines(ss: Seq<PromSeriesView>) -> Seq<char>
    decreases ss.len(),
{
    if ss.len() == 0 {
        seq![]
    } else {
        series_lines(ss.drop_last()) + series_line((ss.len() - 1) as nat, ss.last())
    }
}

/// The most series shown.
pub const MAX_SERIES: usize = 50;

/// The text a Prometheus query answers with, from the answer body and what
/// parsing it gave.
pub open spec fn prometheus_text(body: Seq<char>, parsed: Result<PromResponseView, Seq<char>>) -> Result<
    Seq<char>,
    ErrorView,
> {
    match parsed {
        Err(e) => Err(ErrorView::Tool("prometheus.query"@, "invalid JSON: "@ + e)),
        Ok(resp) => if resp.status != Some("success"@) {
            Ok(body)
        } else {
            match resp.result {
                None => Ok("Prometheus: no series matched the query"@),
                Some(ss) => if ss.len() == 0 {
                    Ok("Prometheus: no series matched the query"@)
                } else if ss.len() <= MAX_SERIES {
                    Ok("Prometheus results:\n"@ + series_lines(ss))
                } else {
                    Ok("Prometheus results:\n"@ + series_lines(ss.subrange(0, MAX_SERIES as int))
                        + "\n[showing 50 of "@ + decimal(ss.len()) + " series]"@)
                },
            }
        },
    }
}

/// Joins a series' labels as `k=v, k=v`.
fn format_labels(ls: &Vec<(String, String)>) -> (r: String)
    ensures
        r@ == join_labels(labels_view(ls@)),
{
    let ghost lv = labels_view(ls@);
    let mut out = String::new();
    let mut i: usize = 0;
    assert(lv.subrange(0, 0) =~= Seq::<(Seq<char>, Seq<char>)>::empty());
    while i < ls.len()
        invariant
            i <= ls@.len(),
            lv == labels_view(ls@),
            out@ == join_labels(lv.subrange(0, i as int)),
        decreases ls.len() - i,
    {
        let ghost pre = lv.subrange(0, i + 1);
        assert(pre.drop_last() =~= lv.subrange(0, i as int));
        assert(pre.last() == (ls@[i as int].0@, ls@[i as int].1@));
        if i > 0 {
            out.append(", ");
        } else {
            assert(pre =~= seq![lv[0]]);
        }
        out.append(ls[i].0.as_str());
        out.append("=");
        out.append(ls[i].1.as_str());
        i += 1;
    }
    assert(lv.subrange(0, ls@.len() as int) =~= lv);
    out
}

/// Shows series number `i` (from 0).
fn format_series_line(i: usize, s: &PromSeries) -> (r: String)
    requires
        i < MAX_SERIES,
    ensures
        r@ == series_line(i as nat, s@),
{
    let mut out = decimal_string((i + 1) as u128);
    out.append(". {");
    match &s.metric {
        Some(m) => out.append(format_labels(m).as_str()),
        None => {},
    }
    out.append("} => ");
    match &s.value {
        Some(v) => out.append(v.as_str()),
        None => out.append("?"),
    }
    out.append("\n");
    out
}

/// Shows a parsed Prometheus answer: up to 50 series, numbered from 1, with
/// their labels and value; an answer whose status is not `success` is shown
/// as its body.
pub fn prometheus_text_of(body: &str, parsed: Result<PromResponse, String>) -> (r: Result<
    String,
    RsagentError,
>)
    ensures
        text_result(r) == prometheus_text(body@, prom_result_view(parsed)),
{
    let resp = match parsed {
        Err(e) => {
            let mut m = String::from_str("invalid JSON: ");
            m.append(e.as_str());
            return Err(RsagentError::Tool { name: String::from_str("prometheus.query"), message: m });
        },
        Ok(p) => p,
    };
    let success = match &resp.status {
        Some(s) => str_eq(s.as_str(), "success"),
        None => false,
    };
    if !success {
        return Ok(body.to_owned());
    }
    let series = match &resp.result {
        None => return Ok(String::from_str("Prometheus: no series matched the query")),
        Some(ss) => ss,
    };
    let ghost sv = series_views(series@);
    if series.len() == 0 {
        return Ok(String::from_str("Prometheus: no series matched the query"));
    }
    let count: usize = if series.len() <= MAX_SERIES {
        series.len()
    } else {
        MAX_SERIES
    };
    let mut out = String::from_str("Prometheus results:\n");
    let mut i: usize = 0;
    assert(sv.subrange(0, 0) =~= Seq::<PromSeriesView>::empty());
    while i < count
        invariant
            i <= count <= series@.len(),
            count <= MAX_SERIES,
            sv == series_views(series@),
            out@ == "Prometheus results:\n"@ + series_lines(sv.subrange(0, i as int)),
        decreases count - i,
    {
        let s = &series[i];
        let ghost pre = sv.subrange(0, i + 1);
        assert(pre.drop_last() =~= sv.subrange(0, i as int));
        assert(pre.last() == s@);
        let line = format_series_line(i, s);
        out.append(line.as_str());
        assert(out@ =~= "Prometheus results:\n"@ + (series_lines(sv.subrange(0, i as int))
            + series_line(i as nat, s@)));
        i += 1;
    }
    if series.len() > MAX_SERIES {
        out.append("\n[showing 50 of ");
        out.append(decimal_string(series.len() as u128).as_str());
        out.append(" series]");
    } else {
        assert(sv.subrange(0, sv.len() as int) =~= sv);
    }
    Ok(out)
}

/// Shows a Prometheus answer as `http_get` hands it on (`HTTP <status>`,
/// then the body): the body is parsed as JSON and shown as
/// [`prometheus_text_of`] does.
pub fn format_prometheus_response(raw: &str) -> (r: Result<String, RsagentError>)
    ensures
        text_result(r) == prometheus_text(body_of(raw@), prometheus_json(body_of(raw@))),
{
    let body = response_body(raw);
    let parsed = parse_prometheus(body.as_str());
    prometheus_text_of(body.as_str(), parsed)
}

/// An alert as the filter reads it: the fields of its `labels` and
/// `annotations` objects (when they are objects), each field's text when it
/// is a string.
#[derive(Debug, Clone, PartialEq)]
pub struct Alert {
    pub labels: Option<Vec<(String, Option<String>)>>,
    pub annotations: Option<Vec<(String, Option<String>)>>,
}

/// The fields of a JSON object: each key and, when the value is a string,
/// its text.
pub type FieldsView = Seq<(Seq<char>, Option<Seq<char>>)>;

/// The abstract value of an [`Alert`].
pub struct AlertView {
    pub labels: Option<FieldsView>,
    pub annotations: Option<FieldsView>,
}

/// An object's fields by their views.
pub open spec fn fields_view(f: Option<Vec<(String, Option<String>)>>) -> Option<FieldsView> {
    match f {
        Some(v) => Some(v@.map_values(|e: (String, Option<String>)| (e.0@, opt_str_view(e.1)))),
        None => None,
    }
}

impl View for Alert {
    type V = AlertView;

    open spec fn view(&self) -> AlertView {
        AlertView { labels: fields_view(self.labels), annotations: fields_view(self.annotations) }
    }
}

/// A list of alerts by their views.
pub open spec fn alert_views(alerts: Seq<Alert>) -> Seq<AlertView> {
    alerts.map_values(|a: Alert| a@)
}

/// What `serde_json::from_str` into a list of JSON values, each read as an
/// [`Alert`], gives for an Alertmanager answer body: the alerts, or the
/// parse error's message.
pub uninterp spec fn alerts_json(body: Seq<char>) -> Result<Seq<AlertView>, Seq<char>>;

/// Parsed alerts by their views.
pub open spec fn alerts_result_view(r: Result<Vec<Alert>, String>) -> Result<Seq<AlertView>, Seq<char>> {
    match r {
        Ok(v) => Ok(alert_views(v@)),
        Err(e) => Err(e@),
    }
}

/// Parses an Alertmanager answer body with `serde_json::from_str` into a
/// list of `serde_json::Value` and reads of each its `labels` and
/// `annotations` objects (`Value::as_object`), each field with its text when
/// a string (`Value::as_str`). The contract names the result: JSON parsing
/// is `serde_json`'s, and the result depends on the body alone.
#[verifier::external_body]
fn parse_alerts(body: &str) -> (r: Result<Vec<Alert>, String>)
    ensures
        alerts_result_view(r) == alerts_json(body@),
{
    let fields = |v: &serde_json::Value| v.as_object().map(|m| m.iter().map(|(k, x)| (k.clone(), x.as_str().map(|s| s.to_string()))).collect());
    let vs: Vec<serde_json::Value> = serde_json::from_str(body).map_err(|e| e.to_string())?;
    Ok(vs.iter().map(|a| Alert { labels: fields(&a["labels"]), annotations: fields(&a["annotations"]) }).collect())
}

/// The field `key` of an object: whether present, and its text if a string.
pub open spec fn field_of(fields: FieldsView, key: Seq<char>) -> Option<Option<Seq<char>>>
    decreases fields.len(),
{
    if fields.len() == 0 {
        None
    } else if fields[0].0 == key {
        Some(fields[0].1)
    } else {
        field_of(fields.drop_first(), key)
    }
}

/// The string field `key` of an optional object, or `default`.
pub open spec fn text_field(obj: Option<FieldsView>, key: Seq<char>, default: Seq<char>) -> Seq<char> {
    match obj {
        Some(fields) => match field_of(fields, key) {
            Some(Some(s)) => s,
            _ => default,
        },
        None => default,
    }
}

/// The alert's instance: the `instance` label when present (`-` unless a
/// string), else the `host` label, else `-`.
pub open spec fn instance_of(a: AlertView) -> Seq<char> {
    match a.labels {
        Some(fields) => match field_of(fields, "instance"@) {
            Some(Some(s)) => s,
            Some(None) => "-"@,
            None => text_field(a.labels, "host"@, "-"@),
        },
        None => "-"@,
    }
}

/// The alert's name.
pub open spec fn alertname_of(a: AlertView) -> Seq<char> {
    text_field(a.labels, "alertname"@, "unknown"@)
}

/// The alert's severity.
pub open spec fn severity_of(a: AlertView) -> Seq<char> {
    text_field(a.labels, "severity"@, "unknown"@)
}

/// Whether an alert passes the filter: its name contains the name filter
/// and its severity equals the severity filter.
pub open spec fn alert_passes(a: AlertView, name_filter: Option<Seq<char>>, severity_filter: Option<Seq<char>>) -> bool {
    &&& match name_filter {
        Some(f) => has_substring(alertname_of(a), f),
        None => true,
    }
    &&& match severity_filter {
        Some(f) => severity_of(a) == f,
        None => true,
    }
}

/// How one alert is shown.
pub open spec fn alert_block(a: AlertView) -> Seq<char> {
    "- "@ + alertname_of(a) + " ("@ + severity_of(a) + ") @ "@ + instance_of(a) + "\n  summary: "@
        + text_field(a.annotations, "summary"@, ""@) + "\n  impact: "@ + text_field(
        a.annotations,
        "impact"@,
        ""@,
    ) + "\n"@
}

/// The alerts that pass the filter, in order.
pub open spec fn matching_alerts(alerts: Seq<AlertView>, nf: Option<Seq<char>>, sf: Option<Seq<char>>) -> Seq<AlertView>
    decreases alerts.len(),
{
    if alerts.len() == 0 {
        seq![]
    } else if alert_passes(alerts.last(), nf, sf) {
        matching_alerts(alerts.drop_last(), nf, sf).push(alerts.last())
    } else {
        matching_alerts(alerts.drop_last(), nf, sf)
    }
}

/// How a list of alerts is shown.
pub open spec fn alert_blocks(alerts: Seq<AlertView>) -> Seq<char>
    decreases alerts.len(),
{
    if alerts.len() == 0 {
        seq![]
    } else {
        alert_blocks(alerts.drop_last()) + alert_block(alerts.last())
    }
}

/// The most alerts shown.
pub const MAX_ALERTS: usize = 50;

/// The text an Alertmanager query answers with, from what parsing its body
/// gave.
pub open spec fn alerts_text(
    parsed: Result<Seq<AlertView>, Seq<char>>,
    nf: Option<Seq<char>>,
    sf: Option<Seq<char>>,
) -> Result<Seq<char>, ErrorView> {
    match parsed {
        Err(e) => Err(ErrorView::Tool("alertmanager.alerts"@, "invalid alerts JSON: "@ + e)),
        Ok(alerts) => if alerts.len() == 0 {
            Ok("Alertmanager: no firing alerts"@)
        } else {
            let m = matching_alerts(alerts, nf, sf);
            if m.len() == 0 {
                Ok("Alertmanager: no alerts matched the filter"@)
            } else if m.len() < MAX_ALERTS {
                Ok("Firing alerts:\n"@ + alert_blocks(m))
            } else {
                Ok("Firing alerts:\n"@ + alert_blocks(m.subrange(0, MAX_ALERTS as int))
                    + "\n[truncated to 50 alerts]"@)
            }
        },
    }
}

/// The matching alerts of a prefix are a prefix of the matching alerts.
proof fn lemma_matching_prefix(alerts: Seq<AlertView>, j: int, nf: Option<Seq<char>>, sf: Option<Seq<char>>)
    requires
        0 <= j <= alerts.len(),
    ensures
        matching_alerts(alerts.subrange(0, j), nf, sf).len() <= matching_alerts(alerts, nf, sf).len(),
        matching_alerts(alerts, nf, sf).subrange(
            0,
            matching_alerts(alerts.subrange(0, j), nf, sf).len() as int,
        ) == matching_alerts(alerts.subrange(0, j), nf, sf),
    decreases alerts.len(),
{
    if j == alerts.len() {
        assert(alerts.subrange(0, j) =~= alerts);
        let m = matching_alerts(alerts, nf, sf);
        assert(m.subrange(0, m.len() as int) =~= m);
    } else {
        assert(alerts.drop_last().subrange(0, j) =~= alerts.subrange(0, j));
        lemma_matching_prefix(alerts.drop_last(), j, nf, sf);
        let m1 = matching_alerts(alerts.drop_last(), nf, sf);
        let mj = matching_alerts(alerts.subrange(0, j), nf, sf);
        if alert_passes(alerts.last(), nf, sf) {
            assert(m1.push(alerts.last()).subrange(0, mj.len() as int) =~= m1.subrange(
                0,
                mj.len() as int,
            ));
        }
    }
}

/// The text field `key` of an object.
fn text_field_exec(obj: &Option<Vec<(String, Option<String>)>>, key: &str, default: &str) -> (r:
    String)
    ensures
        r@ == text_field(fields_view(*obj), key@, default@),
{
    match obj {
        Some(fields) => match field_exec(fields, key) {
            Some(Some(s)) => s,
            _ => default.to_owned(),
        },
        None => default.to_owned(),
    }
}

/// The field `key` of an object.
fn field_exec(fields: &Vec<(String, Option<String>)>, key: &str) -> (r: Option<Option<String>>)
    ensures
        match r {
            Some(v) => field_of(fields_view(Some(*fields))->0, key@) == Some(opt_str_view(v)),
            None => field_of(fields_view(Some(*fields))->0, key@) is None,
        },
{
    let ghost fv = fields_view(Some(*fields))->0;
    let mut i: usize = 0;
    assert(fv.subrange(0, fv.len() as int) =~= fv);
    while i < fields.len()
        invariant
            i <= fields@.len(),
            fv == fields_view(Some(*fields))->0,
            field_of(fv, key@) == field_of(fv.subrange(i as int, fv.len() as int), key@),
        decreases fields.len() - i,
    {
        let ghost tail = fv.subrange(i as int, fv.len() as int);
        assert(tail[0] == (fields@[i as int].0@, opt_str_view(fields@[i as int].1)));
        if str_eq(fields[i].0.as_str(), key) {
            let v = match &fields[i].1 {
                Some(s) => Some(s.clone()),
                None => None,
            };
            return Some(v);
        }
        assert(tail.drop_first() =~= fv.subrange(i + 1, fv.len() as int));
        i += 1;
    }
    None
}

/// The instance an alert is shown with.
fn instance_exec(a: &Alert) -> (r: String)
    ensures
        r@ == instance_of(a@),
{
    match &a.labels {
        Some(fields) => match field_exec(fields, "instance") {
            Some(Some(s)) => s,
            Some(None) => String::from_str("-"),
            None => text_field_exec(&a.labels, "host", "-"),
        },
        None => String::from_str("-"),
    }
}

/// Shows one alert, given its name, severity and instance.
fn format_alert_block(a: &Alert, alertname: &str, severity: &str, instance: &str) -> (r: String)
    requires
        alertname@ == alertname_of(a@),
        severity@ == severity_of(a@),
        instance@ == instance_of(a@),
    ensures
        r@ == alert_block(a@),
{
    let summary = text_field_exec(&a.annotations, "summary", "");
    let impact = text_field_exec(&a.annotations, "impact", "");
    let mut out = String::from_str("- ");
    out.append(alertname);
    out.append(" (");
    out.append(severity);
    out.append(") @ ");
    out.append(instance);
    out.append("\n  summary: ");
    out.append(summary.as_str());
    out.append("\n  impact: ");
    out.append(impact.as_str());
    out.append("\n");
    out
}

/// Shows the parsed firing alerts that pass the filter, at most 50.
pub fn alerts_text_of(parsed: Result<Vec<Alert>, String>, filter: &AlertmanagerInput) -> (r: Result<
    String,
    RsagentError,
>)
    ensures
        text_result(r) == alerts_text(
            alerts_result_view(parsed),
            opt_str_view(filter.alertname),
            opt_str_view(filter.severity),
        ),
{
    let alerts = match parsed {
        Err(e) => {
            let mut m = String::from_str("invalid alerts JSON: ");
            m.append(e.as_str());
            return Err(
                RsagentError::Tool { name: String::from_str("alertmanager.alerts"), message: m },
            );
        },
        Ok(v) => v,
    };
    if alerts.len() == 0 {
        return Ok(String::from_str("Alertmanager: no firing alerts"));
    }
    let ghost nf = opt_str_view(filter.alertname);
    let ghost sf = opt_str_view(filter.severity);
    let ghost av = alert_views(alerts@);
    let mut out = String::from_str("Firing alerts:\n");
    let mut shown: usize = 0;
    let mut i: usize = 0;
    assert(av.subrange(0, 0) =~= Seq::<AlertView>::empty());
    #[verifier::loop_isolation(false)]
    while i < alerts.len()
        invariant
            i <= alerts@.len(),
            av == alert_views(alerts@),
            nf == opt_str_view(filter.alertname),
            sf == opt_str_view(filter.severity),
            shown == matching_alerts(av.subrange(0, i as int), nf, sf).len(),
            shown < MAX_ALERTS,
            out@ == "Firing alerts:\n"@ + alert_blocks(matching_alerts(av.subrange(0, i as int), nf, sf)),
        decreases alerts.len() - i,
    {
        let a = &alerts[i];
        let ghost pre = av.subrange(0, i + 1);
        assert(pre.drop_last() =~= av.subrange(0, i as int));
        assert(pre.last() == a@);
        let alertname = text_field_exec(&a.labels, "alertname", "unknown");
        let severity = text_field_exec(&a.labels, "severity", "unknown");
        let instance = instance_exec(a);
        let name_ok = match &filter.alertname {
            Some(f) => contains(alertname.as_str(), f.as_str()),
            None => true,
        };
        let severity_ok = match &filter.severity {
            Some(f) => str_eq(severity.as_str(), f.as_str()),
            None => true,
        };
        if name_ok && severity_ok {
            shown += 1;
            let block = format_alert_block(a, alertname.as_str(), severity.as_str(), instance.as_str());
            let ghost m0 = matching_alerts(av.subrange(0, i as int), nf, sf);
            out.append(block.as_str());
            assert(out@ =~= "Firing alerts:\n"@ + (alert_blocks(m0) + alert_block(a@)));
            assert(m0.push(a@).drop_last() =~= m0);
            if shown >= MAX_ALERTS {
                out.append("\n[truncated to 50 alerts]");
                proof {
                    lemma_matching_prefix(av, i + 1, nf, sf);
                    let m = matching_alerts(av, nf, sf);
                    let mp = matching_alerts(pre, nf, sf);
                    assert(m.subrange(0, MAX_ALERTS as int) == mp);
                }
                return Ok(out);
            }
        }
        i += 1;
    }
    assert(av.subrange(0, av.len() as int) =~= av);
    if shown == 0 {
        return Ok(String::from_str("Alertmanager: no alerts matched the filter"));
    }
    Ok(out)
}

/// Shows the firing alerts of an Alertmanager answer as `http_get` hands it
/// on (`HTTP <status>`, then the body) that pass the filter, at most 50.
pub fn filter_alertmanager_alerts(raw: &str, filter: &AlertmanagerInput) -> (r: Result<
    String,
    RsagentError,
>)
    ensures
        text_result(r) == alerts_text(
            alerts_json(body_of(raw@)),
            opt_str_view(filter.alertname),
            opt_str_view(filter.severity),
        ),
{
    let body = response_body(raw);
    let parsed = parse_alerts(body.as_str());
    alerts_text_of(parsed, filter)
}

/// Every alert shown passes the name and severity filters, and comes from
/// the alerts that were listed.
pub proof fn law_matching_alerts_pass(alerts: Seq<AlertView>, nf: Option<Seq<char>>, sf: Option<Seq<char>>)
    ensures
        matching_alerts(alerts, nf, sf).len() <= alerts.len(),
        forall|i: int|
            0 <= i < matching_alerts(alerts, nf, sf).len() ==> alert_passes(
                #[trigger] matching_alerts(alerts, nf, sf)[i],
                nf,
                sf,
            ) && alerts.contains(matching_alerts(alerts, nf, sf)[i]),
    decreases alerts.len(),
{
    if alerts.len() > 0 {
        law_matching_alerts_pass(alerts.drop_last(), nf, sf);
        let m0 = matching_alerts(alerts.drop_last(), nf, sf);
        let m = matching_alerts(alerts, nf, sf);
        assert forall|i: int| 0 <= i < m.len() implies alert_passes(#[trigger] m[i], nf, sf)
            && alerts.contains(m[i]) by {
            if i < m0.len() {
                assert(m[i] == m0[i]);
                let k = choose|k: int|
                    0 <= k < alerts.drop_last().len() && alerts.drop_last()[k] == m0[i];
                assert(alerts[k] == m0[i]);
            } else {
                assert(m[i] == alerts.last());
                assert(alerts[alerts.len() - 1] == alerts.last());
            }
        }
    }
}

/// Labels are shown as `k=v` pairs with `, ` between every two consecutive
/// pairs: no labels show as nothing, one label as `k=v`, and one label more
/// after at least one adds `, k=v`.
pub proof fn law_labels_joined_with_commas(ls: Seq<(Seq<char>, Seq<char>)>, l: (Seq<char>, Seq<char>))
    ensures
        join_labels(Seq::<(Seq<char>, Seq<char>)>::empty()) == Seq::<char>::empty(),
        join_labels(seq![l]) == l.0 + "="@ + l.1,
        ls.len() > 0 ==> join_labels(ls.push(l)) == join_labels(ls) + ", "@ + l.0 + "="@ + l.1,
{
    assert(ls.push(l).drop_last() =~= ls);
    assert(ls.push(l).last() == l);
}

/// An alert is listed exactly when its name contains the name filter
/// somewhere and its severity equals the severity filter (each only when
/// given): listing one alert more appends it to the matching alerts when both
/// hold, and leaves them as they were otherwise.
pub proof fn law_alert_filter_by_name_and_severity(
    alerts: Seq<AlertView>,
    a: AlertView,
    nf: Option<Seq<char>>,
    sf: Option<Seq<char>>,
)
    ensures
        matching_alerts(Seq::<AlertView>::empty(), nf, sf) == Seq::<AlertView>::empty(),
        matching_alerts(alerts.push(a), nf, sf) == (if (match nf {
            Some(f) => exists|i: int|
                0 <= i && i + f.len() <= alertname_of(a).len() && #[trigger] alertname_of(
                    a,
                ).subrange(i, i + f.len()) == f,
            None => true,
        }) && (match sf {
            Some(s) => severity_of(a) == s,
            None => true,
        }) {
            matching_alerts(alerts, nf, sf).push(a)
        } else {
            matching_alerts(alerts, nf, sf)
        }),
{
    assert(alerts.push(a).drop_last() =~= alerts);
    assert(alerts.push(a).last() == a);
    match nf {
        Some(f) => crate::text::lemma_substring_at(alertname_of(a), f),
        None => {},
    }
}

} // verus!
