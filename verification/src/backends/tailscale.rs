//! `tailscale.status`: nothing in its declaration needs checking.
use vstd::prelude::*;

use crate::error::RsagentError;
use crate::params::ParamMap;

verus! {

/// Checks a `tailscale.status` declaration: every declaration is accepted.
pub fn validate_tailscale(_params: &ParamMap) -> (r: Result<(), RsagentError>)
    ensures
        r is Ok,
{
    Ok(())
}

} // verus!
