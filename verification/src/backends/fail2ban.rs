//! `fail2ban.status`: which jail may be asked about, and the command run.
use vstd::prelude::*;
use vstd::string::*;

use crate::backends::strings_view;
use crate::error::{unit_result, ErrorView, RsagentError};
use crate::params::{get_param, opt_str_view, opt_views, ParamMap, ParamView};
use crate::text::str_eq;

verus! {

/// The input of `fail2ban.status`.
#[derive(Debug, Clone, PartialEq)]
pub struct Fail2banInput {
    /// Optional jail name, e.g. `sshd`.
    pub jail: Option<String>,
}

/// What checking a jail against `allowed_jails` gives: with no list every
/// jail is allowed.
pub open spec fn jail_check(params: Map<Seq<char>, ParamView>, jail: Seq<char>) -> Result<(), ErrorView> {
    match get_param(params, "allowed_jails"@) {
        None => Ok(()),
        Some(ParamView::Array(entries)) => if entries.contains(Some(jail)) {
            Ok(())
        } else {
            Err(ErrorView::Tool("fail2ban.status"@, "jail `"@ + jail + "` is not in allowed_jails"@))
        },
        Some(_) => Err(ErrorView::Config("params.allowed_jails must be an array of strings"@)),
    }
}

/// Checks that `jail` may be asked about.
pub fn validate_jail(params: &ParamMap, jail: &str) -> (r: Result<(), RsagentError>)
    ensures
        unit_result(r) == jail_check(params@, jail@),
{
    let raw = match params.get("allowed_jails") {
        Some(v) => v,
        None => return Ok(()),
    };
    let jails = match raw.as_array() {
        Some(j) => j,
        None => return Err(RsagentError::config("params.allowed_jails must be an array of strings")),
    };
    let ghost entries = opt_views(jails@);
    let mut i: usize = 0;
    while i < jails.len()
        invariant
            i <= jails@.len(),
            entries == opt_views(jails@),
            get_param(params@, "allowed_jails"@) == Some(raw@),
            raw@ == ParamView::Array(entries),
            forall|k: int| 0 <= k < i ==> entries[k] != Some(jail@),
        decreases jails.len() - i,
    {
        match &jails[i] {
            Some(j) => {
                if str_eq(j.as_str(), jail) {
                    assert(entries[i as int] == Some(jail@));
                    return Ok(());
                }
            },
            None => {},
        }
        i += 1;
    }
    let mut m = String::from_str("jail `");
    m.append(jail);
    m.append("` is not in allowed_jails");
    Err(RsagentError::Tool { name: String::from_str("fail2ban.status"), message: m })
}

/// The arguments of the `fail2ban-client` command a status call runs:
/// `status`, then the jail when one is asked about and allowed.
pub open spec fn fail2ban_args_outcome(params: Map<Seq<char>, ParamView>, jail: Option<Seq<char>>) -> Result<
    Seq<Seq<char>>,
    ErrorView,
> {
    match jail {
        Some(j) => match jail_check(params, j) {
            Ok(_) => Ok(seq!["status"@, j]),
            Err(e) => Err(e),
        },
        None => Ok(seq!["status"@]),
    }
}

/// Decides the command a `fail2ban.status` call runs.
pub fn fail2ban_args(params: &ParamMap, input: &Fail2banInput) -> (r: Result<Vec<String>, RsagentError>)
    ensures
        match r {
            Ok(args) => fail2ban_args_outcome(params@, opt_str_view(input.jail)) == Ok::<
                Seq<Seq<char>>,
                ErrorView,
            >(strings_view(args@)),
            Err(e) => fail2ban_args_outcome(params@, opt_str_view(input.jail)) == Err::<
                Seq<Seq<char>>,
                ErrorView,
            >(e@),
        },
{
    let mut args: Vec<String> = Vec::new();
    args.push(String::from_str("status"));
    match &input.jail {
        Some(j) => {
            match validate_jail(params, j.as_str()) {
                Ok(()) => {},
                Err(e) => return Err(e),
            }
            args.push(j.clone());
            assert(strings_view(args@) =~= seq!["status"@, j@]);
        },
        None => {
            assert(strings_view(args@) =~= seq!["status"@]);
        },
    }
    Ok(args)
}

/// Checks a `fail2ban.status` declaration: every declaration is accepted.
pub fn validate_fail2ban(_params: &ParamMap) -> (r: Result<(), RsagentError>)
    ensures
        r is Ok,
{
    Ok(())
}

/// A status call names a jail only when no `allowed_jails` list is
/// configured or the list holds that jail.
pub proof fn law_jail_is_allowed(params: Map<Seq<char>, ParamView>, jail: Seq<char>)
    requires
        fail2ban_args_outcome(params, Some(jail)) is Ok,
    ensures
        fail2ban_args_outcome(params, Some(jail))->Ok_0 == seq!["status"@, jail],
        match get_param(params, "allowed_jails"@) {
            None => true,
            Some(v) => v matches ParamView::Array(entries) && entries.contains(Some(jail)),
        },
{
}

} // verus!
