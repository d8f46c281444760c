//! The agent's configuration: the model endpoint, the agent's prompt and step
//! budget, and the declared tools; its defaults, its validation, and the
//! decisions that surround loading it (which file, which API key).
use vstd::prelude::*;
use vstd::string::*;

use crate::error::{text_result, unit_result, ErrorView, RsagentError};
use crate::params::{opt_str_view, ParamMap, ParamView};
use crate::text::{
    chars_of, collect_chars, index_of, is_blank, is_blank_str, lemma_index_of, owned, split_once,
    split_once_char, str_eq, trim, trim_str,
};

verus! {

/// The config file used when none is named.
pub const DEFAULT_CONFIG_PATH: &'static str = "/etc/rsagent/config.toml";

/// The environment file searched for the API key.
pub const DEFAULT_ENV_FILE: &'static str = "/etc/rsagent/environment";

/// The environment variable that may hold the API key.
pub const API_KEY_VAR: &'static str = "FIREWORKS_API_KEY";

/// The environment variable that may name the config file.
pub const CONFIG_PATH_VAR: &'static str = "RSAGENT_CONFIG";

/// The model endpoint.
#[derive(Debug, Clone, PartialEq)]
pub struct LlmConfig {
    /// Fireworks inference API base URL.
    pub base_url: String,
    /// Fireworks model or router id.
    pub model: String,
    /// API key override.
    pub api_key: Option<String>,
}

/// The agent's behaviour.
#[derive(Debug, Clone, PartialEq)]
pub struct AgentConfig {
    pub system_prompt: String,
    pub max_steps: u32,
}

/// One declared tool.
#[derive(Debug, Clone, PartialEq)]
pub struct ToolConfig {
    pub name: String,
    pub description: String,
    pub kind: String,
    pub enabled: bool,
    pub params: ParamMap,
}

/// The whole configuration.
#[derive(Debug, Clone, PartialEq)]
pub struct Config {
    pub llm: LlmConfig,
    pub agent: AgentConfig,
    pub tools: Vec<ToolConfig>,
}

/// The abstract value of a [`ToolConfig`].
pub struct ToolConfigView {
    pub name: Seq<char>,
    pub description: Seq<char>,
    pub kind: Seq<char>,
    pub enabled: bool,
    pub params: Map<Seq<char>, ParamView>,
}

impl View for ToolConfig {
    type V = ToolConfigView;

    open spec fn view(&self) -> ToolConfigView {
        ToolConfigView {
            name: self.name@,
            description: self.description@,
            kind: self.kind@,
            enabled: self.enabled,
            params: self.params@,
        }
    }
}

impl ToolConfig {
    /// A copy of this tool declaration.
    pub fn copy(&self) -> (r: ToolConfig)
        ensures
            r@ == self@,
    {
        ToolConfig {
            name: self.name.clone(),
            description: self.description.clone(),
            kind: self.kind.clone(),
            enabled: self.enabled,
            params: self.params.copy(),
        }
    }
}

/// The default inference API base URL.
pub fn default_base_url() -> (s: String)
    ensures
        s@ == "https://api.fireworks.ai/inference/v1"@,
{
    String::from_str("https://api.fireworks.ai/inference/v1")
}

/// The default model router.
pub fn default_model() -> (s: String)
    ensures
        s@ == "accounts/fireworks/routers/kimi-k2p6-turbo"@,
{
    String::from_str("accounts/fireworks/routers/kimi-k2p6-turbo")
}

/// The default system prompt.
pub fn default_system_prompt() -> (s: String)
    ensures
        s@ == "You are a concise server operations assistant. Use tools to inspect the host. Never suggest shell commands. Summarize findings clearly."@,
{
    String::from_str(
        "You are a concise server operations assistant. Use tools to inspect the host. Never suggest shell commands. Summarize findings clearly.",
    )
}

/// The default bound on agent steps per turn.
pub fn default_max_steps() -> (n: u32)
    ensures
        n == 10,
{
    10
}

/// Tools are enabled unless the config says otherwise.
pub fn default_enabled() -> (b: bool)
    ensures
        b,
{
    true
}

impl Default for LlmConfig {
    fn default() -> (c: Self)
        ensures
            c.base_url@ == "https://api.fireworks.ai/inference/v1"@,
            c.model@ == "accounts/fireworks/routers/kimi-k2p6-turbo"@,
            c.api_key is None,
    {
        LlmConfig { base_url: default_base_url(), model: default_model(), api_key: None }
    }
}

impl Default for AgentConfig {
    fn default() -> (c: Self)
        ensures
            c.system_prompt@
                == "You are a concise server operations assistant. Use tools to inspect the host. Never suggest shell commands. Summarize findings clearly."@,
            c.max_steps == 10,
    {
        AgentConfig { system_prompt: default_system_prompt(), max_steps: default_max_steps() }
    }
}

impl Default for Config {
    fn default() -> (c: Self)
        ensures
            c.llm.base_url@ == "https://api.fireworks.ai/inference/v1"@,
            c.llm.model@ == "accounts/fireworks/routers/kimi-k2p6-turbo"@,
            c.llm.api_key is None,
            c.agent.system_prompt@
                == "You are a concise server operations assistant. Use tools to inspect the host. Never suggest shell commands. Summarize findings clearly."@,
            c.agent.max_steps == 10,
            c.tools@.len() == 0,
    {
        Config { llm: LlmConfig::default(), agent: AgentConfig::default(), tools: Vec::new() }
    }
}

/// What validating the tool list gives, given the names of the enabled tools
/// already seen: the first problem met in order, if any.
pub open spec fn check_tools(tools: Seq<ToolConfig>, seen: Seq<Seq<char>>) -> Result<(), ErrorView>
    decreases tools.len(),
{
    if tools.len() == 0 {
        Ok(())
    } else {
        let t = tools[0];
        if !t.enabled {
            check_tools(tools.drop_first(), seen)
        } else if seen.contains(t.name@) {
            Err(ErrorView::Config("duplicate enabled tool name `"@ + t.name@ + "`"@))
        } else if is_blank(t.name@) {
            Err(ErrorView::Config("tool name must not be empty"@))
        } else if is_blank(t.kind@) {
            Err(ErrorView::Config("tool `"@ + t.name@ + "` must declare a kind"@))
        } else {
            check_tools(tools.drop_first(), seen.push(t.name@))
        }
    }
}

/// What validating a configuration gives.
pub open spec fn check_config(c: Config) -> Result<(), ErrorView> {
    if is_blank(c.llm.base_url@) {
        Err(ErrorView::Config("llm.base_url must not be empty"@))
    } else if is_blank(c.llm.model@) {
        Err(ErrorView::Config("llm.model must not be empty"@))
    } else {
        check_tools(c.tools@, seq![])
    }
}

/// The enabled tools of `tools`, in order.
pub open spec fn enabled(tools: Seq<ToolConfig>) -> Seq<ToolConfig>
    decreases tools.len(),
{
    if tools.len() == 0 {
        seq![]
    } else if tools.last().enabled {
        enabled(tools.drop_last()).push(tools.last())
    } else {
        enabled(tools.drop_last())
    }
}

/// A configuration that validation accepts: endpoint and model are not
/// blank, every enabled tool has a non-blank name and kind, and no two
/// enabled tools share a name.
pub open spec fn well_formed_config(c: Config) -> bool {
    &&& !is_blank(c.llm.base_url@)
    &&& !is_blank(c.llm.model@)
    &&& tools_well_formed(c.tools@, seq![])
}

/// The tool-list part of [`well_formed_config`], with names already taken.
pub open spec fn tools_well_formed(tools: Seq<ToolConfig>, seen: Seq<Seq<char>>) -> bool {
    &&& forall|i: int|
        0 <= i < tools.len() && (#[trigger] tools[i]).enabled ==> !is_blank(tools[i].name@)
            && !is_blank(tools[i].kind@) && !seen.contains(tools[i].name@)
    &&& forall|i: int, j: int|
        0 <= i < j < tools.len() && (#[trigger] tools[i]).enabled && (#[trigger] tools[j]).enabled
            ==> tools[i].name@ != tools[j].name@
}

/// Tool-list validation succeeds exactly on well-formed tool lists.
pub proof fn lemma_check_tools(tools: Seq<ToolConfig>, seen: Seq<Seq<char>>)
    ensures
        check_tools(tools, seen) is Ok <==> tools_well_formed(tools, seen),
    decreases tools.len(),
{
    if tools.len() > 0 {
        let t = tools[0];
        let rest = tools.drop_first();
        let seen2 = if t.enabled {
            seen.push(t.name@)
        } else {
            seen
        };
        lemma_check_tools(rest, seen2);
        if tools_well_formed(tools, seen) {
            assert(tools[0] == t);
            if t.enabled {
                assert forall|i: int|
                    0 <= i < rest.len() && (#[trigger] rest[i]).enabled implies !is_blank(
                    rest[i].name@,
                ) && !is_blank(rest[i].kind@) && !seen2.contains(rest[i].name@) by {
                    assert(rest[i] == tools[i + 1]);
                    if seen2.contains(rest[i].name@) {
                        let k = choose|k: int| 0 <= k < seen2.len() && seen2[k] == rest[i].name@;
                        if k < seen.len() {
                            assert(seen.contains(tools[i + 1].name@));
                        } else {
                            assert(tools[0].name@ == tools[i + 1].name@);
                        }
                    }
                }
            } else {
                assert forall|i: int|
                    0 <= i < rest.len() && (#[trigger] rest[i]).enabled implies !is_blank(
                    rest[i].name@,
                ) && !is_blank(rest[i].kind@) && !seen2.contains(rest[i].name@) by {
                    assert(rest[i] == tools[i + 1]);
                }
            }
            assert forall|i: int, j: int|
                0 <= i < j < rest.len() && (#[trigger] rest[i]).enabled && (#[trigger] rest[j]).enabled
                    implies rest[i].name@ != rest[j].name@ by {
                assert(rest[i] == tools[i + 1] && rest[j] == tools[j + 1]);
            }
        }
        if check_tools(tools, seen) is Ok {
            assert forall|i: int|
                0 <= i < tools.len() && (#[trigger] tools[i]).enabled implies !is_blank(
                tools[i].name@,
            ) && !is_blank(tools[i].kind@) && !seen.contains(tools[i].name@) by {
                if i > 0 {
                    assert(tools[i] == rest[i - 1]);
                    if seen.contains(tools[i].name@) {
                        let k = choose|k: int| 0 <= k < seen.len() && seen[k] == tools[i].name@;
                        assert(seen2[k] == seen[k]);
                    }
                }
            }
            assert forall|i: int, j: int|
                0 <= i < j < tools.len() && (#[trigger] tools[i]).enabled && (#[trigger] tools[j]).enabled
                    implies tools[i].name@ != tools[j].name@ by {
                assert(tools[j] == rest[j - 1]);
                if i == 0 {
                    assert(seen2[seen.len() as int] == t.name@);
                } else {
                    assert(tools[i] == rest[i - 1]);
                }
            }
        }
    }
}

/// Validation accepts a configuration exactly when it is well formed: the
/// endpoint and the model are not blank, every enabled tool has a non-blank
/// name and kind, and no two enabled tools share a name.
pub proof fn law_validate_accepts_exactly_well_formed(c: Config)
    ensures
        check_config(c) is Ok <==> well_formed_config(c),
{
    lemma_check_tools(c.tools@, seq![]);
}

/// The API key a configuration resolves to, given the environment variable
/// and the environment file's entry.
pub open spec fn resolve_api_key(
    configured: Option<Seq<char>>,
    env_value: Option<Seq<char>>,
    file_value: Option<Seq<char>>,
) -> Result<Seq<char>, ErrorView> {
    if configured is Some && configured->0.len() > 0 {
        Ok(configured->0)
    } else if env_value is Some && env_value->0.len() > 0 {
        Ok(env_value->0)
    } else if file_value is Some && file_value->0.len() > 0 {
        Ok(file_value->0)
    } else {
        Err(
            ErrorView::Config(
                "missing API key: set llm.api_key or FIREWORKS_API_KEY (env or /etc/rsagent/environment)"@,
            ),
        )
    }
}

/// The lines of `s` (split at `\n`).
pub open spec fn split_lines(s: Seq<char>) -> Seq<Seq<char>>
    decreases s.len(),
{
    match index_of(s, '\n') {
        Some(i) => if 0 <= i < s.len() {
            seq![s.subrange(0, i)] + split_lines(s.subrange(i + 1, s.len() as int))
        } else {
            seq![s]
        },
        None => seq![s],
    }
}

/// The value an environment file gives `key`: lines are trimmed, blank lines
/// and `#` comments are skipped, and the first other line without `=` ends
/// the search with nothing.
pub open spec fn env_lookup(lines: Seq<Seq<char>>, key: Seq<char>) -> Option<Seq<char>>
    decreases lines.len(),
{
    if lines.len() == 0 {
        None
    } else {
        let line = trim(lines[0]);
        if line.len() == 0 || line[0] == '#' {
            env_lookup(lines.drop_first(), key)
        } else {
            match split_once(line, '=') {
                None => None,
                Some((name, value)) => if name == key {
                    Some(value)
                } else {
                    env_lookup(lines.drop_first(), key)
                },
            }
        }
    }
}

/// The config file path chosen from the command line, the environment and
/// whether the default file exists.
pub open spec fn resolve_config_path(
    cli: Option<Seq<char>>,
    env_value: Option<Seq<char>>,
    default_exists: bool,
) -> Result<Seq<char>, ErrorView> {
    if cli is Some {
        Ok(cli->0)
    } else if env_value is Some && env_value->0.len() > 0 {
        Ok(env_value->0)
    } else if default_exists {
        Ok(DEFAULT_CONFIG_PATH@)
    } else {
        Err(
            ErrorView::Config(
                "no config file: pass --config or set RSAGENT_CONFIG or install /etc/rsagent/config.toml"@,
            ),
        )
    }
}

/// Whether `names` holds `name`.
fn contains_name(names: &Vec<String>, name: &str) -> (r: bool)
    ensures
        r == names@.map_values(|s: String| s@).contains(name@),
{
    let ghost views = names@.map_values(|s: String| s@);
    let mut i: usize = 0;
    while i < names.len()
        invariant
            i <= names.len(),
            views == names@.map_values(|s: String| s@),
            forall|k: int| 0 <= k < i ==> views[k] != name@,
        decreases names.len() - i,
    {
        if str_eq(names[i].as_str(), name) {
            assert(views[i as int] == name@);
            return true;
        }
        i += 1;
    }
    false
}

impl Config {
    /// Checks the configuration: the endpoint and model must not be blank,
    /// and each enabled tool must have a fresh, non-blank name and a
    /// non-blank kind. The first problem found is reported.
    pub fn validate(&self) -> (r: Result<(), RsagentError>)
        ensures
            unit_result(r) == check_config(*self),
    {
        if is_blank_str(self.llm.base_url.as_str()) {
            return Err(RsagentError::config("llm.base_url must not be empty"));
        }
        if is_blank_str(self.llm.model.as_str()) {
            return Err(RsagentError::config("llm.model must not be empty"));
        }
        let mut names: Vec<String> = Vec::new();
        let mut i: usize = 0;
        assert(self.tools@.subrange(0, self.tools@.len() as int) =~= self.tools@);
        assert(names@.map_values(|s: String| s@) =~= Seq::<Seq<char>>::empty());
        while i < self.tools.len()
            invariant
                i <= self.tools@.len(),
                !is_blank(self.llm.base_url@),
                !is_blank(self.llm.model@),
                check_config(*self) == check_tools(
                    self.tools@.subrange(i as int, self.tools@.len() as int),
                    names@.map_values(|s: String| s@),
                ),
            decreases self.tools.len() - i,
        {
            let tool = &self.tools[i];
            let ghost rest = self.tools@.subrange(i as int, self.tools@.len() as int);
            assert(rest[0] == *tool);
            assert(rest.drop_first() =~= self.tools@.subrange(i + 1, self.tools@.len() as int));
            if tool.enabled {
                if contains_name(&names, tool.name.as_str()) {
                    let mut m = String::from_str("duplicate enabled tool name `");
                    m.append(tool.name.as_str());
                    m.append("`");
                    return Err(RsagentError::Config(m));
                }
                let ghost before = names@.map_values(|s: String| s@);
                names.push(tool.name.clone());
                assert(names@.map_values(|s: String| s@) =~= before.push(tool.name@));
                if is_blank_str(tool.name.as_str()) {
                    return Err(RsagentError::config("tool name must not be empty"));
                }
                if is_blank_str(tool.kind.as_str()) {
                    let mut m = String::from_str("tool `");
                    m.append(tool.name.as_str());
                    m.append("` must declare a kind");
                    return Err(RsagentError::Config(m));
                }
            }
            i += 1;
        }
        Ok(())
    }

    /// The enabled tools, in declaration order.
    pub fn enabled_tools(&self) -> (r: Vec<&ToolConfig>)
        ensures
            r@.map_values(|t: &ToolConfig| *t) == enabled(self.tools@),
    {
        let mut r: Vec<&ToolConfig> = Vec::new();
        let mut i: usize = 0;
        assert(self.tools@.subrange(0, 0) =~= Seq::<ToolConfig>::empty());
        assert(r@.map_values(|t: &ToolConfig| *t) =~= Seq::<ToolConfig>::empty());
        while i < self.tools.len()
            invariant
                i <= self.tools@.len(),
                r@.map_values(|t: &ToolConfig| *t) == enabled(self.tools@.subrange(0, i as int)),
            decreases self.tools.len() - i,
        {
            let ghost prefix = self.tools@.subrange(0, i + 1);
            assert(prefix.drop_last() =~= self.tools@.subrange(0, i as int));
            assert(prefix.last() == self.tools@[i as int]);
            let ghost before = r@.map_values(|t: &ToolConfig| *t);
            if self.tools[i].enabled {
                r.push(&self.tools[i]);
                assert(r@.map_values(|t: &ToolConfig| *t) =~= before.push(self.tools@[i as int]));
            }
            i += 1;
        }
        assert(self.tools@.subrange(0, self.tools@.len() as int) =~= self.tools@);
        r
    }

    /// The API key: the configured one when set and not empty, else the
    /// environment variable's value when not empty, else the environment
    /// file's entry when not empty.
    pub fn api_key(&self, env_value: Option<String>, file_value: Option<String>) -> (r: Result<
        String,
        RsagentError,
    >)
        ensures
            text_result(r) == resolve_api_key(
                opt_str_view(self.llm.api_key),
                opt_str_view(env_value),
                opt_str_view(file_value),
            ),
    {
        if let Some(key) = &self.llm.api_key {
            if !key.as_str().is_empty() {
                return Ok(key.clone());
            }
        }
        if let Some(value) = env_value {
            if !value.as_str().is_empty() {
                return Ok(value);
            }
        }
        if let Some(value) = file_value {
            if !value.as_str().is_empty() {
                return Ok(value);
            }
        }
        Err(
            RsagentError::config(
                "missing API key: set llm.api_key or FIREWORKS_API_KEY (env or /etc/rsagent/environment)",
            ),
        )
    }
}

/// The value an environment file's text gives `key`.
pub fn parse_env_file(raw: &str, key: &str) -> (r: Option<String>)
    ensures
        opt_str_view(r) == env_lookup(split_lines(raw@), key@),
{
    let v = chars_of(raw);
    let n = v.len();
    let mut start: usize = 0;
    assert(v@.subrange(0, n as int) =~= v@);
    loop
        invariant
            start <= n,
            n == v@.len(),
            v@ == raw@,
            env_lookup(split_lines(raw@), key@) == env_lookup(
                split_lines(v@.subrange(start as int, n as int)),
                key@,
            ),
        decreases n - start,
    {
        let ghost rest = v@.subrange(start as int, n as int);
        proof {
            lemma_index_of(rest, '\n');
        }
        let mut end: usize = start;
        while end < n && v[end] != '\n'
            invariant
                start <= end <= n,
                n == v@.len(),
                forall|k: int| start <= k < end ==> v@[k] != '\n',
            decreases n - end,
        {
            end += 1;
        }
        proof {
            if end < n {
                lemma_first_newline(rest, (end - start) as int);
            } else {
                assert forall|k: int| 0 <= k < rest.len() implies rest[k] != '\n' by {
                    assert(rest[k] == v@[start + k]);
                }
                lemma_no_newline(rest);
            }
        }
        let raw_line = collect_chars(&v, start, end);
        let line = trim_str(raw_line.as_str());
        let ghost lines = split_lines(rest);
        assert(lines[0] == raw_line@);
        let lv = chars_of(line.as_str());
        let skip = lv.len() == 0 || lv[0] == '#';
        if !skip {
            match split_once_char(line.as_str(), '=') {
                None => {
                    return None;
                },
                Some((name, value)) => {
                    if str_eq(name.as_str(), key) {
                        return Some(value);
                    }
                },
            }
        }
        if end == n {
            assert(lines.drop_first() =~= Seq::<Seq<char>>::empty());
            assert(env_lookup(lines.drop_first(), key@) is None);
            return None;
        }
        assert(lines.drop_first() == split_lines(v@.subrange(end + 1, n as int))) by {
            assert(rest.subrange((end - start) + 1, rest.len() as int) =~= v@.subrange(
                end + 1,
                n as int,
            ));
        }
        start = end + 1;
    }
}

/// How the lines of `s` begin when its first newline is at `i`.
proof fn lemma_first_newline(s: Seq<char>, i: int)
    requires
        0 <= i < s.len(),
        s[i] == '\n',
        forall|k: int| 0 <= k < i ==> s[k] != '\n',
    ensures
        split_lines(s) == seq![s.subrange(0, i)] + split_lines(s.subrange(i + 1, s.len() as int)),
{
    lemma_index_of(s, '\n');
    match index_of(s, '\n') {
        Some(j) => {
            if j < i {
                assert(s[j] != '\n');
            }
            if j > i {
                assert(s[i] != '\n');
            }
        },
        None => {
            assert(s[i] != '\n');
        },
    }
}

/// A text without newline is one line.
proof fn lemma_no_newline(s: Seq<char>)
    requires
        forall|k: int| 0 <= k < s.len() ==> s[k] != '\n',
    ensures
        split_lines(s) == seq![s],
{
    lemma_index_of(s, '\n');
}

/// Chooses the config file: the command-line path when given, else the
/// non-empty `RSAGENT_CONFIG` value, else the default file when it exists.
pub fn config_path(cli: Option<String>, env_value: Option<String>, default_exists: bool) -> (r:
    Result<String, RsagentError>)
    ensures
        text_result(r) == resolve_config_path(
            opt_str_view(cli),
            opt_str_view(env_value),
            default_exists,
        ),
{
    if let Some(path) = cli {
        return Ok(path);
    }
    if let Some(path) = env_value {
        if !path.as_str().is_empty() {
            return Ok(path);
        }
    }
    if default_exists {
        return Ok(owned(DEFAULT_CONFIG_PATH));
    }
    Err(
        RsagentError::config(
            "no config file: pass --config or set RSAGENT_CONFIG or install /etc/rsagent/config.toml",
        ),
    )
}

/// The API key as the printed configuration shows it: a set key is masked.
pub fn redact_api_key(api_key: &Option<String>) -> (r: Option<String>)
    ensures
        match api_key {
            Some(_) => r matches Some(s) && s@ == "***"@,
            None => r is None,
        },
{
    match api_key {
        Some(_) => Some(String::from_str("***")),
        None => None,
    }
}

} // verus!
