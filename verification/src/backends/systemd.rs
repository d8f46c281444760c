//! `systemd.unit_status` and `systemd.list_units`: which unit may be asked
//! about, which units are listed, and how the answers are shown.
use vstd::prelude::*;
use vstd::string::*;

use crate::backends::{
    ensure_allowed_units, spec_allowed_units, spec_validate_unit, strings_view, validate_unit,
    ListUnitsInput, UnitInput,
};
use crate::error::{unit_result, ErrorView, RsagentError};
use crate::params::{get_param, opt_str_view, ParamMap, ParamView};
use crate::text::{contains, has_substring, lemma_substring_at};

verus! {

/// What checking a `systemd.unit_status` call gives: the configured
/// `allowed_units` must be valid and the unit must pass `validate_unit`.
pub open spec fn unit_status_outcome(params: Map<Seq<char>, ParamView>, unit: Seq<char>) -> Result<(), ErrorView> {
    match spec_allowed_units(params) {
        Err(e) => Err(e),
        Ok(allowed) => spec_validate_unit("systemd.unit_status"@, unit, allowed),
    }
}

/// Checks that a `systemd.unit_status` call may inspect its unit.
pub fn unit_status_check(params: &ParamMap, input: &UnitInput) -> (r: Result<(), RsagentError>)
    ensures
        unit_result(r) == unit_status_outcome(params@, input.unit@),
{
    let allowed = match ensure_allowed_units(params) {
        Ok(a) => a,
        Err(e) => return Err(e),
    };
    validate_unit("systemd.unit_status", input.unit.as_str(), allowed.as_slice())
}

/// A unit may only be inspected when it is listed in `allowed_units` and is
/// a service, timer, socket or target unit.
pub proof fn law_unit_status_needs_allow_list(params: Map<Seq<char>, ParamView>, unit: Seq<char>)
    requires
        unit_status_outcome(params, unit) is Ok,
    ensures
        spec_allowed_units(params) is Ok,
        spec_allowed_units(params)->Ok_0.contains(unit),
        crate::backends::unit_suffix_allowed(unit),
{
}

/// How a unit's state is shown.
pub open spec fn unit_status_text(unit: Seq<char>, active: Seq<char>, sub: Seq<char>, description: Seq<char>) -> Seq<char> {
    "Unit: "@ + unit + "\nState: "@ + active + " ("@ + sub + ")\nDescription: "@ + description
}

/// Shows a unit's state.
pub fn format_unit_status(unit: &str, active: &str, sub: &str, description: &str) -> (r: String)
    ensures
        r@ == unit_status_text(unit@, active@, sub@, description@),
{
    let mut r = String::from_str("Unit: ");
    r.append(unit);
    r.append("\nState: ");
    r.append(active);
    r.append(" (");
    r.append(sub);
    r.append(")\nDescription: ");
    r.append(description);
    r
}

/// The name filter of a `systemd.list_units` call: the call's own, else the
/// configured `filter` string.
pub open spec fn list_filter(params: Map<Seq<char>, ParamView>, input_filter: Option<Seq<char>>) -> Option<Seq<char>> {
    match input_filter {
        Some(f) => Some(f),
        None => match get_param(params, "filter"@) {
            Some(ParamView::Str(s)) => Some(s),
            _ => None,
        },
    }
}

/// Resolves the name filter of a `systemd.list_units` call.
pub fn list_units_filter(params: &ParamMap, input: &ListUnitsInput) -> (r: Option<String>)
    ensures
        opt_str_view(r) == list_filter(params@, opt_str_view(input.filter)),
{
    match &input.filter {
        Some(f) => Some(f.clone()),
        None => match params.get("filter") {
            Some(v) => match v.as_str() {
                Some(s) => Some(s.to_owned()),
                None => None,
            },
            None => None,
        },
    }
}

/// A unit as listed.
#[derive(Debug, Clone, PartialEq)]
pub struct UnitEntry {
    pub name: String,
    pub load_state: String,
    pub active_state: String,
}

/// Whether a unit passes the filter.
pub open spec fn unit_passes(u: UnitEntry, filter: Option<Seq<char>>) -> bool {
    match filter {
        Some(f) => has_substring(u.name@, f),
        None => true,
    }
}

/// How one listed unit is shown.
pub open spec fn unit_line(u: UnitEntry) -> Seq<char> {
    u.name@ + " → "@ + u.active_state@ + " ("@ + u.load_state@ + ")\n"@
}

/// The lines of the units that pass the filter.
pub open spec fn unit_lines(units: Seq<UnitEntry>, filter: Option<Seq<char>>) -> Seq<char>
    decreases units.len(),
{
    if units.len() == 0 {
        seq![]
    } else if unit_passes(units.last(), filter) {
        unit_lines(units.drop_last(), filter) + unit_line(units.last())
    } else {
        unit_lines(units.drop_last(), filter)
    }
}

/// The text a unit listing answers with.
pub open spec fn unit_list_text(units: Seq<UnitEntry>, filter: Option<Seq<char>>) -> Seq<char> {
    if unit_lines(units, filter).len() == 0 {
        "No matching units"@
    } else {
        unit_lines(units, filter)
    }
}

/// Shows the units whose name contains the filter.
pub fn format_unit_list(units: &Vec<UnitEntry>, filter: Option<&str>) -> (r: String)
    ensures
        r@ == unit_list_text(
            units@,
            match filter {
                Some(f) => Some(f@),
                None => None,
            },
        ),
{
    let ghost fv = match filter {
        Some(f) => Some(f@),
        None => None::<Seq<char>>,
    };
    let mut out = String::new();
    let mut i: usize = 0;
    assert(units@.subrange(0, 0) =~= Seq::<UnitEntry>::empty());
    while i < units.len()
        invariant
            i <= units@.len(),
            fv == (match filter {
                Some(f) => Some(f@),
                None => None::<Seq<char>>,
            }),
            out@ == unit_lines(units@.subrange(0, i as int), fv),
        decreases units.len() - i,
    {
        let u = &units[i];
        let ghost pre = units@.subrange(0, i + 1);
        assert(pre.drop_last() =~= units@.subrange(0, i as int));
        assert(pre.last() == *u);
        let passes = match filter {
            Some(f) => contains(u.name.as_str(), f),
            None => true,
        };
        if passes {
            out.append(u.name.as_str());
            out.append(" → ");
            out.append(u.active_state.as_str());
            out.append(" (");
            out.append(u.load_state.as_str());
            out.append(")\n");
        }
        i += 1;
    }
    assert(units@.subrange(0, units@.len() as int) =~= units@);
    if out.as_str().is_empty() {
        return String::from_str("No matching units");
    }
    out
}

/// A unit is listed exactly when its name contains the filter somewhere (any
/// unit when there is no filter): listing one unit more adds, after the
/// lines of the others, its line (name, ` → `, active state, load state)
/// when the filter occurs in its name, and nothing otherwise.
pub proof fn law_unit_listed_iff_name_contains(
    units: Seq<UnitEntry>,
    u: UnitEntry,
    filter: Option<Seq<char>>,
)
    ensures
        unit_lines(Seq::<UnitEntry>::empty(), filter) == Seq::<char>::empty(),
        unit_lines(units.push(u), filter) == unit_lines(units, filter) + (if (match filter {
            Some(f) => exists|i: int|
                0 <= i && i + f.len() <= u.name@.len() && #[trigger] u.name@.subrange(
                    i,
                    i + f.len(),
                ) == f,
            None => true,
        }) {
            u.name@ + " → "@ + u.active_state@ + " ("@ + u.load_state@ + ")\n"@
        } else {
            Seq::<char>::empty()
        }),
{
    assert(units.push(u).drop_last() =~= units);
    assert(units.push(u).last() == u);
    match filter {
        Some(f) => lemma_substring_at(u.name@, f),
        None => {},
    }
    assert(unit_lines(units, filter) + Seq::<char>::empty() =~= unit_lines(units, filter));
}

} // verus!
