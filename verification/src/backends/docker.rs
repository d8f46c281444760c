//! `docker.list`: which containers may be listed and how they are shown.
use vstd::prelude::*;
use vstd::string::*;

use crate::backends::{param_string_opt, spec_param_string_opt};
use crate::error::{unit_result, ErrorView, RsagentError};
use crate::params::{opt_str_view, ParamMap, ParamView};
use crate::text::{
    chars_of, collect_chars, contains, has_prefix, has_substring, lemma_substring_at, starts_with,
};

verus! {

/// The input of `docker.list`.
#[derive(Debug, Clone, PartialEq)]
pub struct DockerListInput {
    /// Optional name substring filter (must match configured prefix allowlist when set).
    pub filter: Option<String>,
}

/// A container as the host lists it.
#[derive(Debug, Clone, PartialEq)]
pub struct ContainerInfo {
    pub names: Option<Vec<String>>,
    pub state: Option<String>,
    pub status: Option<String>,
    pub image: Option<String>,
}

/// What checking a name filter gives: with a configured `name_prefix` the
/// filter must start with it.
pub open spec fn name_prefix_check(params: Map<Seq<char>, ParamView>, filter: Seq<char>) -> Result<(), ErrorView> {
    match spec_param_string_opt(params, "name_prefix"@) {
        None => Ok(()),
        Some(p) => if has_prefix(filter, p) {
            Ok(())
        } else {
            Err(
                ErrorView::Tool(
                    "docker.list"@,
                    "filter must start with configured name_prefix `"@ + p + "`"@,
                ),
            )
        },
    }
}

/// Checks a container name filter against the configured `name_prefix`.
pub fn validate_name_prefix(params: &ParamMap, filter: &str) -> (r: Result<(), RsagentError>)
    ensures
        unit_result(r) == name_prefix_check(params@, filter@),
{
    let prefix = match param_string_opt(params, "name_prefix") {
        Some(p) => p,
        None => return Ok(()),
    };
    if starts_with(filter, prefix.as_str()) {
        Ok(())
    } else {
        let mut m = String::from_str("filter must start with configured name_prefix `");
        m.append(prefix.as_str());
        m.append("`");
        Err(RsagentError::Tool { name: String::from_str("docker.list"), message: m })
    }
}

/// Checks a `docker.list` declaration: every declaration is accepted.
pub fn validate_docker(_params: &ParamMap) -> (r: Result<(), RsagentError>)
    ensures
        r is Ok,
{
    Ok(())
}

/// `s` without its leading `/` characters.
pub open spec fn trim_leading_slashes(s: Seq<char>) -> Seq<char>
    decreases s.len(),
{
    if s.len() > 0 && s[0] == '/' {
        trim_leading_slashes(s.drop_first())
    } else {
        s
    }
}

/// The name a container is shown by: its first name without leading
/// slashes, or `?`.
pub open spec fn primary_name(c: ContainerInfo) -> Seq<char> {
    match c.names {
        Some(ns) => if ns@.len() > 0 {
            trim_leading_slashes(ns@[0]@)
        } else {
            "?"@
        },
        None => "?"@,
    }
}

/// Whether a container is shown: its name starts with the prefix and
/// contains the filter.
pub open spec fn container_passes(c: ContainerInfo, prefix: Option<Seq<char>>, filter: Option<Seq<char>>) -> bool {
    &&& match prefix {
        Some(p) => has_prefix(primary_name(c), p),
        None => true,
    }
    &&& match filter {
        Some(f) => has_substring(primary_name(c), f),
        None => true,
    }
}

/// A field's text, or `unknown`.
pub open spec fn or_unknown(o: Option<String>) -> Seq<char> {
    match o {
        Some(s) => s@,
        None => "unknown"@,
    }
}

/// How one container is shown.
pub open spec fn container_line(c: ContainerInfo) -> Seq<char> {
    "- "@ + primary_name(c) + " ("@ + or_unknown(c.state) + "/"@ + or_unknown(c.status)
        + ") image="@ + or_unknown(c.image) + "\n"@
}

/// The containers shown, in order.
pub open spec fn shown_containers(cs: Seq<ContainerInfo>, prefix: Option<Seq<char>>, filter: Option<Seq<char>>) -> Seq<
    ContainerInfo,
>
    decreases cs.len(),
{
    if cs.len() == 0 {
        seq![]
    } else if container_passes(cs.last(), prefix, filter) {
        shown_containers(cs.drop_last(), prefix, filter).push(cs.last())
    } else {
        shown_containers(cs.drop_last(), prefix, filter)
    }
}

/// How a list of containers is shown.
pub open spec fn container_lines(cs: Seq<ContainerInfo>) -> Seq<char>
    decreases cs.len(),
{
    if cs.len() == 0 {
        seq![]
    } else {
        container_lines(cs.drop_last()) + container_line(cs.last())
    }
}

/// The most containers shown.
pub const MAX_CONTAINERS: usize = 100;

/// The text a container listing answers with.
pub open spec fn containers_text(cs: Seq<ContainerInfo>, prefix: Option<Seq<char>>, filter: Option<Seq<char>>) -> Seq<char> {
    let m = shown_containers(cs, prefix, filter);
    if m.len() == 0 {
        "No matching containers"@
    } else if m.len() < MAX_CONTAINERS {
        "Containers:\n"@ + container_lines(m)
    } else {
        "Containers:\n"@ + container_lines(m.subrange(0, MAX_CONTAINERS as int))
            + "\n[truncated to 100 containers]"@
    }
}

/// The containers shown of a prefix are a prefix of the containers shown.
proof fn lemma_shown_prefix(cs: Seq<ContainerInfo>, j: int, prefix: Option<Seq<char>>, filter: Option<Seq<char>>)
    requires
        0 <= j <= cs.len(),
    ensures
        shown_containers(cs.subrange(0, j), prefix, filter).len() <= shown_containers(
            cs,
            prefix,
            filter,
        ).len(),
        shown_containers(cs, prefix, filter).subrange(
            0,
            shown_containers(cs.subrange(0, j), prefix, filter).len() as int,
        ) == shown_containers(cs.subrange(0, j), prefix, filter),
    decreases cs.len(),
{
    if j == cs.len() {
        assert(cs.subrange(0, j) =~= cs);
        let m = shown_containers(cs, prefix, filter);
        assert(m.subrange(0, m.len() as int) =~= m);
    } else {
        assert(cs.drop_last().subrange(0, j) =~= cs.subrange(0, j));
        lemma_shown_prefix(cs.drop_last(), j, prefix, filter);
        let m1 = shown_containers(cs.drop_last(), prefix, filter);
        let mj = shown_containers(cs.subrange(0, j), prefix, filter);
        if container_passes(cs.last(), prefix, filter) {
            assert(m1.push(cs.last()).subrange(0, mj.len() as int) =~= m1.subrange(
                0,
                mj.len() as int,
            ));
        }
    }
}

/// The name a container is shown by.
fn primary_name_exec(c: &ContainerInfo) -> (r: String)
    ensures
        r@ == primary_name(*c),
{
    match &c.names {
        Some(ns) => if ns.len() > 0 {
            let v = chars_of(ns[0].as_str());
            let mut i: usize = 0;
            assert(v@.subrange(0, v@.len() as int) =~= v@);
            while i < v.len() && v[i] == '/'
                invariant
                    i <= v@.len(),
                    trim_leading_slashes(v@) == trim_leading_slashes(
                        v@.subrange(i as int, v@.len() as int),
                    ),
                decreases v.len() - i,
            {
                assert(v@.subrange(i as int, v@.len() as int).drop_first() =~= v@.subrange(
                    i + 1,
                    v@.len() as int,
                ));
                i += 1;
            }
            collect_chars(&v, i, v.len())
        } else {
            String::from_str("?")
        },
        None => String::from_str("?"),
    }
}

/// A field's text, or `unknown`.
fn or_unknown_exec(o: &Option<String>) -> (r: String)
    ensures
        r@ == or_unknown(*o),
{
    match o {
        Some(s) => s.clone(),
        None => String::from_str("unknown"),
    }
}

/// Shows one container, given its name.
fn format_container_line(c: &ContainerInfo, primary: &str) -> (r: String)
    requires
        primary@ == primary_name(*c),
    ensures
        r@ == container_line(*c),
{
    let mut out = String::from_str("- ");
    out.append(primary);
    out.append(" (");
    out.append(or_unknown_exec(&c.state).as_str());
    out.append("/");
    out.append(or_unknown_exec(&c.status).as_str());
    out.append(") image=");
    out.append(or_unknown_exec(&c.image).as_str());
    out.append("\n");
    out
}

/// Shows the containers whose name starts with `name_prefix` and contains
/// `filter`, at most 100.
pub fn format_containers(containers: &Vec<ContainerInfo>, name_prefix: Option<&str>, filter: Option<&str>) -> (r:
    String)
    ensures
        r@ == containers_text(
            containers@,
            match name_prefix {
                Some(p) => Some(p@),
                None => None,
            },
            match filter {
                Some(f) => Some(f@),
                None => None,
            },
        ),
{
    let ghost pv = match name_prefix {
        Some(p) => Some(p@),
        None => None::<Seq<char>>,
    };
    let ghost fv = match filter {
        Some(f) => Some(f@),
        None => None::<Seq<char>>,
    };
    let mut out = String::from_str("Containers:\n");
    let mut shown: usize = 0;
    let mut i: usize = 0;
    assert(containers@.subrange(0, 0) =~= Seq::<ContainerInfo>::empty());
    #[verifier::loop_isolation(false)]
    while i < containers.len()
        invariant
            i <= containers@.len(),
            shown == shown_containers(containers@.subrange(0, i as int), pv, fv).len(),
            shown < MAX_CONTAINERS,
            out@ == "Containers:\n"@ + container_lines(
                shown_containers(containers@.subrange(0, i as int), pv, fv),
            ),
        decreases containers.len() - i,
    {
        let c = &containers[i];
        let ghost pre = containers@.subrange(0, i + 1);
        assert(pre.drop_last() =~= containers@.subrange(0, i as int));
        assert(pre.last() == *c);
        let primary = primary_name_exec(c);
        let prefix_ok = match name_prefix {
            Some(p) => starts_with(primary.as_str(), p),
            None => true,
        };
        let filter_ok = match filter {
            Some(f) => contains(primary.as_str(), f),
            None => true,
        };
        if prefix_ok && filter_ok {
            shown += 1;
            let line = format_container_line(c, primary.as_str());
            let ghost m0 = shown_containers(containers@.subrange(0, i as int), pv, fv);
            out.append(line.as_str());
            assert(out@ =~= "Containers:\n"@ + (container_lines(m0) + container_line(*c)));
            assert(m0.push(*c).drop_last() =~= m0);
            if shown >= MAX_CONTAINERS {
                out.append("\n[truncated to 100 containers]");
                proof {
                    lemma_shown_prefix(containers@, i + 1, pv, fv);
                }
                return out;
            }
        }
        i += 1;
    }
    assert(containers@.subrange(0, containers@.len() as int) =~= containers@);
    if shown == 0 {
        return String::from_str("No matching containers");
    }
    out
}

/// Every container a listing shows passes its name prefix and filter, and
/// the listing keeps the order of the containers.
pub proof fn law_shown_containers_pass(
    cs: Seq<ContainerInfo>,
    prefix: Option<Seq<char>>,
    filter: Option<Seq<char>>,
)
    ensures
        shown_containers(cs, prefix, filter).len() <= cs.len(),
        forall|i: int|
            0 <= i < shown_containers(cs, prefix, filter).len() ==> container_passes(
                #[trigger] shown_containers(cs, prefix, filter)[i],
                prefix,
                filter,
            ) && cs.contains(shown_containers(cs, prefix, filter)[i]),
    decreases cs.len(),
{
    if cs.len() > 0 {
        law_shown_containers_pass(cs.drop_last(), prefix, filter);
        let m0 = shown_containers(cs.drop_last(), prefix, filter);
        let m = shown_containers(cs, prefix, filter);
        assert forall|i: int| 0 <= i < m.len() implies container_passes(
            #[trigger] m[i],
            prefix,
            filter,
        ) && cs.contains(m[i]) by {
            if i < m0.len() {
                assert(m[i] == m0[i]);
                let k = choose|k: int| 0 <= k < cs.drop_last().len() && cs.drop_last()[k] == m0[i];
                assert(cs[k] == m0[i]);
            } else {
                assert(m[i] == cs.last());
                assert(cs[cs.len() - 1] == cs.last());
            }
        }
    }
}

/// A container is listed exactly when its shown name starts with the
/// configured prefix (the prefix fills its first characters) and contains
/// the filter somewhere: listing one container more appends it to the
/// containers shown when both hold, and leaves them as they were otherwise.
/// Every container shown starts with the prefix.
pub proof fn law_container_prefix_and_filter(
    cs: Seq<ContainerInfo>,
    c: ContainerInfo,
    prefix: Option<Seq<char>>,
    filter: Option<Seq<char>>,
)
    ensures
        shown_containers(Seq::<ContainerInfo>::empty(), prefix, filter) == Seq::<ContainerInfo>::empty(),
        shown_containers(cs.push(c), prefix, filter) == (if (match prefix {
            Some(p) => p.len() <= primary_name(c).len() && primary_name(c).subrange(0, p.len() as int)
                == p,
            None => true,
        }) && (match filter {
            Some(f) => exists|i: int|
                0 <= i && i + f.len() <= primary_name(c).len() && #[trigger] primary_name(
                    c,
                ).subrange(i, i + f.len()) == f,
            None => true,
        }) {
            shown_containers(cs, prefix, filter).push(c)
        } else {
            shown_containers(cs, prefix, filter)
        }),
        forall|k: int|
            0 <= k < shown_containers(cs, prefix, filter).len() ==> (match prefix {
                Some(p) => p.len() <= primary_name(
                    #[trigger] shown_containers(cs, prefix, filter)[k],
                ).len() && primary_name(shown_containers(cs, prefix, filter)[k]).subrange(
                    0,
                    p.len() as int,
                ) == p,
                None => true,
            }),
{
    assert(cs.push(c).drop_last() =~= cs);
    assert(cs.push(c).last() == c);
    match filter {
        Some(f) => lemma_substring_at(primary_name(c), f),
        None => {},
    }
    law_shown_containers_pass(cs, prefix, filter);
}

} // verus!
