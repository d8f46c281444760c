//! Endpoint URLs of local services: only loopback hosts are allowed; and
//! allow-lists of query prefixes.
use vstd::prelude::*;
use vstd::string::*;

use crate::backends::{param_string_opt, spec_param_string_opt};
use crate::error::{text_result, unit_result, ErrorView, RsagentError};
use crate::params::{get_param, opt_str_view, opt_views, ParamMap, ParamView};
use crate::text::{chars_of, collect_chars, has_prefix, starts_with, str_eq};

verus! {

/// What `url::Url::parse` followed by `Url::host_str` gives for a URL text:
/// the host text (or none), or the parse error's message.
pub uninterp spec fn url_host_of(url: Seq<char>) -> Result<Option<Seq<char>>, Seq<char>>;

/// A parsed host by its views.
pub open spec fn host_result_view(r: Result<Option<String>, String>) -> Result<Option<Seq<char>>, Seq<char>> {
    match r {
        Ok(h) => Ok(opt_str_view(h)),
        Err(e) => Err(e@),
    }
}

/// Parses `url` with `url::Url::parse` and takes its host with
/// `Url::host_str`; a parse failure gives the error's text. The contract
/// names the result and says nothing of it: URL parsing is the `url`
/// crate's, and the result depends on `url` alone.
#[verifier::external_body]
fn parse_url_host(url: &str) -> (r: Result<Option<String>, String>)
    ensures
        host_result_view(r) == url_host_of(url@),
{
    match url::Url::parse(url) {
        Ok(u) => Ok(u.host_str().map(|h| h.to_string())),
        Err(e) => Err(e.to_string()),
    }
}

/// The hosts a local endpoint may name.
pub open spec fn is_loopback_host(h: Seq<char>) -> bool {
    h == "127.0.0.1"@ || h == "localhost"@ || h == "[::1]"@
}

/// What checking a URL gives, from its text and what parsing it gave.
pub open spec fn localhost_check(url: Seq<char>, parsed: Result<Option<Seq<char>>, Seq<char>>) -> Result<
    (),
    ErrorView,
> {
    match parsed {
        Err(e) => Err(ErrorView::Config("invalid URL `"@ + url + "`: "@ + e)),
        Ok(Some(h)) => if is_loopback_host(h) {
            Ok(())
        } else {
            Err(
                ErrorView::Config(
                    "URL host `"@ + h + "` is not allowed; only 127.0.0.1, localhost, and [::1]"@,
                ),
            )
        },
        Ok(None) => Err(
            ErrorView::Config("URL `"@ + url + "` must include an explicit localhost host"@),
        ),
    }
}

/// Decides whether `url`, which parsed to `parsed`, names a loopback host.
pub fn check_localhost(url: &str, parsed: Result<Option<String>, String>) -> (r: Result<
    (),
    RsagentError,
>)
    ensures
        unit_result(r) == localhost_check(url@, host_result_view(parsed)),
{
    match parsed {
        Err(e) => {
            let mut m = String::from_str("invalid URL `");
            m.append(url);
            m.append("`: ");
            m.append(e.as_str());
            Err(RsagentError::Config(m))
        },
        Ok(Some(h)) => {
            let hs = h.as_str();
            if str_eq(hs, "127.0.0.1") || str_eq(hs, "localhost") || str_eq(hs, "[::1]") {
                Ok(())
            } else {
                let mut m = String::from_str("URL host `");
                m.append(hs);
                m.append("` is not allowed; only 127.0.0.1, localhost, and [::1]");
                Err(RsagentError::Config(m))
            }
        },
        Ok(None) => {
            let mut m = String::from_str("URL `");
            m.append(url);
            m.append("` must include an explicit localhost host");
            Err(RsagentError::Config(m))
        },
    }
}

/// Checks that `url` parses and names a loopback host (127.0.0.1,
/// localhost or [::1]).
pub fn validate_localhost_url(url: &str) -> (r: Result<(), RsagentError>)
    ensures
        unit_result(r) == localhost_check(url@, url_host_of(url@)),
{
    let parsed = parse_url_host(url);
    check_localhost(url, parsed)
}

/// `s` without any trailing `c`.
pub open spec fn trim_end_char(s: Seq<char>, c: char) -> Seq<char>
    decreases s.len(),
{
    if s.len() > 0 && s.last() == c {
        trim_end_char(s.drop_last(), c)
    } else {
        s
    }
}

/// The endpoint a tool talks to: the configured `key`, else `default`.
pub open spec fn base_url_of(params: Map<Seq<char>, ParamView>, key: Seq<char>, default: Seq<char>) -> Seq<char> {
    match spec_param_string_opt(params, key) {
        Some(u) => u,
        None => default,
    }
}

/// What resolving a tool's base URL gives: the endpoint must be a loopback
/// URL; it is handed back without trailing slashes.
pub open spec fn base_url_outcome(params: Map<Seq<char>, ParamView>, key: Seq<char>, default: Seq<char>) -> Result<
    Seq<char>,
    ErrorView,
> {
    let url = base_url_of(params, key, default);
    match localhost_check(url, url_host_of(url)) {
        Err(e) => Err(e),
        Ok(_) => Ok(trim_end_char(url, '/')),
    }
}

/// The configured base URL (or `default`), checked to be a loopback URL,
/// without trailing slashes.
pub fn param_base_url(params: &ParamMap, key: &str, default: &str) -> (r: Result<String, RsagentError>)
    ensures
        text_result(r) == base_url_outcome(params@, key@, default@),
{
    let url = match param_string_opt(params, key) {
        Some(u) => u,
        None => default.to_owned(),
    };
    match validate_localhost_url(url.as_str()) {
        Ok(()) => {},
        Err(e) => return Err(e),
    }
    let v = chars_of(url.as_str());
    let mut n = v.len();
    assert(v@.subrange(0, n as int) =~= v@);
    while n > 0 && v[n - 1] == '/'
        invariant
            n <= v@.len(),
            trim_end_char(v@, '/') == trim_end_char(v@.subrange(0, n as int), '/'),
        decreases n,
    {
        assert(v@.subrange(0, n as int).drop_last() =~= v@.subrange(0, n - 1));
        n -= 1;
    }
    Ok(collect_chars(&v, 0, n))
}

/// A tool whose base URL resolves talks only to a loopback host.
pub proof fn law_base_url_is_loopback(params: Map<Seq<char>, ParamView>, key: Seq<char>, default: Seq<char>)
    requires
        base_url_outcome(params, key, default) is Ok,
    ensures
        url_host_of(base_url_of(params, key, default)) matches Ok(Some(h)) && is_loopback_host(h),
{
}

/// Whether `value` starts with one of the non-empty strings in `entries`.
pub open spec fn has_allowed_prefix(value: Seq<char>, entries: Seq<Option<Seq<char>>>) -> bool {
    exists|i: int| 0 <= i < entries.len() && allows_prefix(value, #[trigger] entries[i])
}

/// Whether the entry is a non-empty string that starts `value`.
pub open spec fn allows_prefix(value: Seq<char>, entry: Option<Seq<char>>) -> bool {
    match entry {
        Some(p) => p.len() > 0 && has_prefix(value, p),
        None => false,
    }
}

/// What checking `value` against the prefix allow-list `param_key` gives:
/// no list, or an empty one, allows everything.
pub open spec fn prefix_check(
    tool_name: Seq<char>,
    value: Seq<char>,
    params: Map<Seq<char>, ParamView>,
    param_key: Seq<char>,
) -> Result<(), ErrorView> {
    match get_param(params, param_key) {
        None => Ok(()),
        Some(ParamView::Array(entries)) => if entries.len() == 0 || has_allowed_prefix(
            value,
            entries,
        ) {
            Ok(())
        } else {
            Err(
                ErrorView::Tool(
                    tool_name,
                    "query must start with one of the configured "@ + param_key + " prefixes"@,
                ),
            )
        },
        Some(_) => Err(ErrorView::Config("params."@ + param_key + " must be an array of strings"@)),
    }
}

/// Checks `value` against the prefix allow-list under `param_key`.
pub fn ensure_allowed_prefixes(tool_name: &str, value: &str, params: &ParamMap, param_key: &str) -> (r:
    Result<(), RsagentError>)
    ensures
        unit_result(r) == prefix_check(tool_name@, value@, params@, param_key@),
{
    let raw = match params.get(param_key) {
        Some(v) => v,
        None => return Ok(()),
    };
    let prefixes = match raw.as_array() {
        Some(p) => p,
        None => {
            let mut m = String::from_str("params.");
            m.append(param_key);
            m.append(" must be an array of strings");
            return Err(RsagentError::Config(m));
        },
    };
    if prefixes.len() == 0 {
        return Ok(());
    }
    let ghost entries = opt_views(prefixes@);
    let mut i: usize = 0;
    while i < prefixes.len()
        invariant
            i <= prefixes@.len(),
            entries == opt_views(prefixes@),
            get_param(params@, param_key@) == Some(raw@),
            raw@ == ParamView::Array(entries),
            forall|k: int|
                0 <= k < i ==> !allows_prefix(value@, #[trigger] entries[k]),
        decreases prefixes.len() - i,
    {
        match &prefixes[i] {
            Some(p) => {
                if !p.as_str().is_empty() && starts_with(value, p.as_str()) {
                    assert(entries[i as int] == Some(p@));
                    assert(allows_prefix(value@, entries[i as int]));
                    return Ok(());
                }
            },
            None => {},
        }
        i += 1;
    }
    let mut m = String::from_str("query must start with one of the configured ");
    m.append(param_key);
    m.append(" prefixes");
    Err(RsagentError::Tool { name: tool_name.to_owned(), message: m })
}

} // verus!
