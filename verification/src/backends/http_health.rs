//! `http.health`: the allow-list of URLs that may be probed.
use vstd::prelude::*;
use vstd::string::*;

use crate::backends::strings_view;
use crate::backends::url_util::{localhost_check, url_host_of, validate_localhost_url};
use crate::error::{unit_result, ErrorView, RsagentError};
use crate::params::{get_param, opt_views, ParamMap, ParamView};
use crate::text::str_eq;

verus! {

/// The input of `http.health`.
#[derive(Debug, Clone, PartialEq)]
pub struct HttpHealthInput {
    /// Exact URL from the configured allowlist.
    pub url: String,
}

/// What reading `allowed_urls` gives.
pub open spec fn allowed_urls_outcome(params: Map<Seq<char>, ParamView>) -> Result<Seq<Seq<char>>, ErrorView> {
    match get_param(params, "allowed_urls"@) {
        None => Err(ErrorView::Config("http.health requires params.allowed_urls"@)),
        Some(ParamView::Array(items)) => if forall|i: int|
            0 <= i < items.len() ==> (#[trigger] items[i]) is Some {
            Ok(items.map_values(|o: Option<Seq<char>>| o->0))
        } else {
            Err(ErrorView::Config("allowed_urls entries must be strings"@))
        },
        Some(_) => Err(ErrorView::Config("params.allowed_urls must be an array of URL strings"@)),
    }
}

/// The `allowed_urls` parameter, which must be an array of strings.
pub fn ensure_allowed_urls(params: &ParamMap) -> (r: Result<Vec<String>, RsagentError>)
    ensures
        match r {
            Ok(v) => allowed_urls_outcome(params@) == Ok::<Seq<Seq<char>>, ErrorView>(
                strings_view(v@),
            ),
            Err(e) => allowed_urls_outcome(params@) == Err::<Seq<Seq<char>>, ErrorView>(e@),
        },
{
    let value = match params.get("allowed_urls") {
        Some(v) => v,
        None => return Err(RsagentError::config("http.health requires params.allowed_urls")),
    };
    let urls = match value.as_array() {
        Some(u) => u,
        None => {
            return Err(RsagentError::config("params.allowed_urls must be an array of URL strings"));
        },
    };
    let ghost items = opt_views(urls@);
    let mut out: Vec<String> = Vec::new();
    for i in 0..urls.len()
        invariant
            items == opt_views(urls@),
            get_param(params@, "allowed_urls"@) == Some(value@),
            value@ == ParamView::Array(items),
            out@.len() == i,
            forall|k: int| 0 <= k < i ==> (#[trigger] items[k]) is Some,
            forall|k: int| 0 <= k < i ==> out@[k]@ == (#[trigger] items[k])->0,
    {
        match &urls[i] {
            Some(s) => out.push(s.clone()),
            None => {
                assert(items[i as int] is None);
                return Err(RsagentError::config("allowed_urls entries must be strings"));
            },
        }
    }
    assert(strings_view(out@) =~= items.map_values(|o: Option<Seq<char>>| o->0));
    Ok(out)
}

/// The first URL of `urls` that is not a loopback URL, by its error.
pub open spec fn first_bad_url(urls: Seq<Seq<char>>) -> Option<ErrorView>
    decreases urls.len(),
{
    if urls.len() == 0 {
        None
    } else {
        match localhost_check(urls[0], url_host_of(urls[0])) {
            Err(e) => Some(e),
            Ok(_) => first_bad_url(urls.drop_first()),
        }
    }
}

/// What checking an `http.health` declaration gives: a non-empty list of
/// loopback URLs is needed.
pub open spec fn health_config_outcome(params: Map<Seq<char>, ParamView>) -> Result<(), ErrorView> {
    match allowed_urls_outcome(params) {
        Err(e) => Err(e),
        Ok(urls) => if urls.len() == 0 {
            Err(ErrorView::Config("http.health requires non-empty params.allowed_urls"@))
        } else {
            match first_bad_url(urls) {
                Some(e) => Err(e),
                None => Ok(()),
            }
        },
    }
}

/// Checks an `http.health` declaration.
pub fn validate_health(params: &ParamMap) -> (r: Result<(), RsagentError>)
    ensures
        unit_result(r) == health_config_outcome(params@),
{
    let urls = match ensure_allowed_urls(params) {
        Ok(u) => u,
        Err(e) => return Err(e),
    };
    if urls.len() == 0 {
        return Err(RsagentError::config("http.health requires non-empty params.allowed_urls"));
    }
    let ghost views = strings_view(urls@);
    let mut i: usize = 0;
    assert(views.subrange(0, views.len() as int) =~= views);
    while i < urls.len()
        invariant
            i <= urls@.len(),
            views == strings_view(urls@),
            allowed_urls_outcome(params@) == Ok::<Seq<Seq<char>>, ErrorView>(views),
            views.len() > 0,
            first_bad_url(views) == first_bad_url(views.subrange(i as int, views.len() as int)),
        decreases urls.len() - i,
    {
        let ghost tail = views.subrange(i as int, views.len() as int);
        assert(tail[0] == urls@[i as int]@);
        match validate_localhost_url(urls[i].as_str()) {
            Ok(()) => {},
            Err(e) => return Err(e),
        }
        assert(tail.drop_first() =~= views.subrange(i + 1, views.len() as int));
        i += 1;
    }
    Ok(())
}

/// What checking an `http.health` call gives: the URL must be listed in
/// `allowed_urls` and be a loopback URL.
pub open spec fn health_call_outcome(params: Map<Seq<char>, ParamView>, url: Seq<char>) -> Result<(), ErrorView> {
    match allowed_urls_outcome(params) {
        Err(e) => Err(e),
        Ok(urls) => if !urls.contains(url) {
            Err(ErrorView::Tool("http.health"@, "url `"@ + url + "` is not in allowed_urls"@))
        } else {
            localhost_check(url, url_host_of(url))
        },
    }
}

/// Checks that an `http.health` call may probe its URL.
pub fn health_check(params: &ParamMap, input: &HttpHealthInput) -> (r: Result<(), RsagentError>)
    ensures
        unit_result(r) == health_call_outcome(params@, input.url@),
{
    let allowed = match ensure_allowed_urls(params) {
        Ok(a) => a,
        Err(e) => return Err(e),
    };
    let ghost views = strings_view(allowed@);
    let mut i: usize = 0;
    while i < allowed.len() && !str_eq(allowed[i].as_str(), input.url.as_str())
        invariant
            i <= allowed@.len(),
            views == strings_view(allowed@),
            forall|k: int| 0 <= k < i ==> views[k] != input.url@,
        decreases allowed.len() - i,
    {
        i += 1;
    }
    if i < allowed.len() {
        assert(views[i as int] == input.url@);
        assert(views.contains(input.url@));
    }
    if i == allowed.len() {
        let mut m = String::from_str("url `");
        m.append(input.url.as_str());
        m.append("` is not in allowed_urls");
        return Err(RsagentError::Tool { name: String::from_str("http.health"), message: m });
    }
    validate_localhost_url(input.url.as_str())
}

/// A health probe goes only to a URL that is listed in `allowed_urls` and
/// names a loopback host.
pub proof fn law_health_probe_is_allowed(params: Map<Seq<char>, ParamView>, url: Seq<char>)
    requires
        health_call_outcome(params, url) is Ok,
    ensures
        allowed_urls_outcome(params) is Ok,
        allowed_urls_outcome(params)->Ok_0.contains(url),
        url_host_of(url) matches Ok(Some(h)) && crate::backends::url_util::is_loopback_host(h),
{
}

} // verus!
