//! The set of tools offered to the model: the enabled, checked tool
//! declarations of a configuration.
use vstd::prelude::*;

use crate::backends::{spec_validate_tool, validate_tool};
use crate::config::{enabled, Config, ToolConfig, ToolConfigView};
use crate::error::{ErrorView, RsagentError};

verus! {

/// The first enabled tool declaration that its check rejects, by its error.
pub open spec fn first_invalid(tools: Seq<ToolConfig>) -> Option<ErrorView>
    decreases tools.len(),
{
    if tools.len() == 0 {
        None
    } else {
        match first_invalid(tools.drop_last()) {
            Some(e) => Some(e),
            None => match spec_validate_tool(tools.last()) {
                Err(e) => Some(e),
                Ok(_) => None,
            },
        }
    }
}

/// The views of a list of tool declarations.
pub open spec fn tool_views(tools: Seq<ToolConfig>) -> Seq<ToolConfigView> {
    tools.map_values(|t: ToolConfig| t@)
}

/// What building the registry from a tool list gives: the first check that
/// fails, else an error when no tool is enabled, else the enabled tools.
pub open spec fn registry_outcome(tools: Seq<ToolConfig>) -> Result<Seq<ToolConfigView>, ErrorView> {
    let es = enabled(tools);
    match first_invalid(es) {
        Some(e) => Err(e),
        None => if es.len() == 0 {
            Err(
                ErrorView::Config(
                    "no enabled tools in config; add [[tools]] entries with enabled = true"@,
                ),
            )
        } else {
            Ok(tool_views(es))
        },
    }
}

/// The tools a session offers.
#[derive(Debug)]
pub struct ToolRegistry {
    tools: Vec<ToolConfig>,
}

impl ToolRegistry {
    /// The registered tools by their views.
    pub closed spec fn registered(&self) -> Seq<ToolConfigView> {
        tool_views(self.tools@)
    }

    /// Checks every enabled tool of `config` and keeps them; at least one
    /// tool must be enabled.
    pub fn from_config(config: &Config) -> (r: Result<ToolRegistry, RsagentError>)
        ensures
            match r {
                Ok(reg) => registry_outcome(config.tools@) == Ok::<
                    Seq<ToolConfigView>,
                    ErrorView,
                >(reg.registered()),
                Err(e) => registry_outcome(config.tools@) == Err::<Seq<ToolConfigView>, ErrorView>(
                    e@,
                ),
            },
    {
        let es = config.enabled_tools();
        let ghost ens = enabled(config.tools@);
        let mut tools: Vec<ToolConfig> = Vec::new();
        let mut i: usize = 0;
        assert(ens.subrange(0, 0) =~= Seq::<ToolConfig>::empty());
        while i < es.len()
            invariant
                i <= es@.len(),
                es@.map_values(|t: &ToolConfig| *t) == ens,
                ens == enabled(config.tools@),
                first_invalid(ens.subrange(0, i as int)) is None,
                tool_views(tools@) =~= tool_views(ens.subrange(0, i as int)),
            decreases es.len() - i,
        {
            let t = es[i];
            assert(ens[i as int] == *t);
            let ghost prefix = ens.subrange(0, i + 1);
            assert(prefix.drop_last() =~= ens.subrange(0, i as int));
            assert(prefix.last() == *t);
            match validate_tool(t) {
                Ok(()) => {},
                Err(e) => {
                    proof {
                        assert(first_invalid(prefix) == Some(e@));
                        lemma_first_invalid_prefix(ens, i + 1);
                    }
                    return Err(e);
                },
            }
            let ghost before = tools@;
            tools.push(t.copy());
            assert(tool_views(tools@) =~= tool_views(before).push(t@));
            assert(tool_views(prefix) =~= tool_views(ens.subrange(0, i as int)).push(t@));
            i += 1;
        }
        assert(ens.subrange(0, es@.len() as int) =~= ens);
        if tools.len() == 0 {
            return Err(
                RsagentError::config(
                    "no enabled tools in config; add [[tools]] entries with enabled = true",
                ),
            );
        }
        Ok(ToolRegistry { tools })
    }

    /// The registered tool declarations.
    pub fn tools(&self) -> (r: &Vec<ToolConfig>)
        ensures
            tool_views(r@) == self.registered(),
    {
        &self.tools
    }

    /// The name, kind and description of each tool declared in `config`, in
    /// declaration order.
    pub fn list(config: &Config) -> (r: Vec<(&str, &str, &str)>)
        ensures
            r@.len() == config.tools@.len(),
            forall|i: int|
                0 <= i < r@.len() ==> (#[trigger] r@[i]).0@ == config.tools@[i].name@
                    && r@[i].1@ == config.tools@[i].kind@ && r@[i].2@
                    == config.tools@[i].description@,
    {
        let mut out: Vec<(&str, &str, &str)> = Vec::new();
        for i in 0..config.tools.len()
            invariant
                out@.len() == i,
                forall|k: int|
                    0 <= k < i ==> (#[trigger] out@[k]).0@ == config.tools@[k].name@
                        && out@[k].1@ == config.tools@[k].kind@ && out@[k].2@
                        == config.tools@[k].description@,
        {
            let t = &config.tools[i];
            out.push((t.name.as_str(), t.kind.as_str(), t.description.as_str()));
        }
        out
    }
}

/// Once a prefix holds an invalid tool, the first invalid tool of the whole
/// list is that prefix's.
proof fn lemma_first_invalid_prefix(s: Seq<ToolConfig>, j: int)
    requires
        0 <= j <= s.len(),
        first_invalid(s.subrange(0, j)) is Some,
    ensures
        first_invalid(s) == first_invalid(s.subrange(0, j)),
    decreases s.len(),
{
    if j == s.len() {
        assert(s.subrange(0, j) =~= s);
    } else {
        assert(s.drop_last().subrange(0, j) =~= s.subrange(0, j));
        lemma_first_invalid_prefix(s.drop_last(), j);
    }
}

/// The enabled tools of a list are all enabled.
proof fn lemma_enabled_are_enabled(tools: Seq<ToolConfig>)
    ensures
        forall|i: int| 0 <= i < enabled(tools).len() ==> (#[trigger] enabled(tools)[i]).enabled,
    decreases tools.len(),
{
    if tools.len() > 0 {
        lemma_enabled_are_enabled(tools.drop_last());
        let e0 = enabled(tools.drop_last());
        assert forall|i: int| 0 <= i < enabled(tools).len() implies (#[trigger] enabled(
            tools,
        )[i]).enabled by {
            if i < e0.len() {
                assert(e0[i].enabled);
            }
        }
    }
}

/// With no invalid tool, every tool passes its check.
proof fn lemma_no_invalid(tools: Seq<ToolConfig>)
    requires
        first_invalid(tools) is None,
    ensures
        forall|i: int| 0 <= i < tools.len() ==> spec_validate_tool(#[trigger] tools[i]) is Ok,
    decreases tools.len(),
{
    if tools.len() > 0 {
        lemma_no_invalid(tools.drop_last());
        assert forall|i: int| 0 <= i < tools.len() implies spec_validate_tool(
            #[trigger] tools[i],
        ) is Ok by {
            if i < tools.len() - 1 {
                assert(tools[i] == tools.drop_last()[i]);
            }
        }
    }
}

/// A registry holds at least one tool, and every tool it holds is enabled and
/// passes its check.
pub proof fn law_registry_holds_checked_enabled_tools(tools: Seq<ToolConfig>)
    requires
        registry_outcome(tools) is Ok,
    ensures
        registry_outcome(tools)->Ok_0.len() > 0,
        forall|i: int|
            0 <= i < registry_outcome(tools)->Ok_0.len() ==> (#[trigger] registry_outcome(
                tools,
            )->Ok_0[i]).enabled && spec_validate_tool(enabled(tools)[i]) is Ok
                && registry_outcome(tools)->Ok_0[i] == enabled(tools)[i]@,
{
    lemma_enabled_are_enabled(tools);
    lemma_no_invalid(enabled(tools));
}

} // verus!
