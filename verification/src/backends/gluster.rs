//! `gluster.status`: the volume whose status is asked for.
use vstd::prelude::*;
use vstd::string::*;

use crate::backends::{param_string, spec_param_string, strings_view};
use crate::error::{unit_result, ErrorView, RsagentError};
use crate::params::ParamMap;

verus! {

/// Checks a `gluster.status` declaration: it needs a `volume` string.
pub fn validate_gluster(params: &ParamMap) -> (r: Result<(), RsagentError>)
    ensures
        unit_result(r) == (match spec_param_string(params@, "volume"@) {
            Ok(_) => Ok(()),
            Err(e) => Err(e),
        }),
{
    match param_string(params, "volume") {
        Ok(_) => Ok(()),
        Err(e) => Err(e),
    }
}

/// The arguments of the `gluster` command a status call runs.
pub fn gluster_args(params: &ParamMap) -> (r: Result<Vec<String>, RsagentError>)
    ensures
        match r {
            Ok(args) => spec_param_string(params@, "volume"@) matches Ok(v) && strings_view(args@)
                == seq!["volume"@, "status"@, v],
            Err(e) => spec_param_string(params@, "volume"@) == Err::<Seq<char>, ErrorView>(e@),
        },
{
    let volume = match param_string(params, "volume") {
        Ok(v) => v,
        Err(e) => return Err(e),
    };
    let mut args: Vec<String> = Vec::new();
    args.push(String::from_str("volume"));
    args.push(String::from_str("status"));
    args.push(volume);
    assert(strings_view(args@) =~= seq!["volume"@, "status"@, args@[2]@]);
    Ok(args)
}

} // verus!
