//! The tool kinds, the inputs they take, the reading of their `params`, the
//! checks made before a tool runs, and the bound on a tool's output.
use vstd::prelude::*;
use vstd::string::*;
use vstd::utf8::{
    decode_utf8, decode_utf8_encode_utf8, encode_utf8, encode_utf8_decode_utf8,
    encode_utf8_valid_utf8, is_char_boundary, valid_utf8_split,
};

use crate::config::ToolConfig;
use crate::error::{text_result, unit_result, ErrorView, RsagentError};
use crate::params::{get_param, opt_str_view, opt_views, ParamMap, ParamView};
use crate::text::{ends_with, has_suffix, str_eq};

pub mod command;
pub mod docker;
pub mod fail2ban;
pub mod gluster;
pub mod http_client;
pub mod http_health;
pub mod tailscale;
pub mod host;
pub mod journal;
pub mod observability;
pub mod systemd;
pub mod url_util;
pub mod zfs;


verus! {

/// The longest tool output handed back, in bytes.
pub const MAX_OUTPUT_CHARS: usize = 16000;

/// The input of a tool that takes none.
#[derive(Debug, Clone, PartialEq)]
pub struct EmptyInput {}

/// The input of `host.disk`.
#[derive(Debug, Clone, PartialEq)]
pub struct DiskInput {
    /// Mount point to inspect (defaults to `/` from config).
    pub mount: Option<String>,
}

/// The input of `systemd.unit_status`.
#[derive(Debug, Clone, PartialEq)]
pub struct UnitInput {
    /// Systemd unit name, e.g. nginx.service
    pub unit: String,
}

/// The input of `systemd.list_units`.
#[derive(Debug, Clone, PartialEq)]
pub struct ListUnitsInput {
    /// Optional substring filter applied to unit names.
    pub filter: Option<String>,
}

/// The input of `journal.query`.
#[derive(Debug, Clone, PartialEq)]
pub struct JournalInput {
    /// Override unit from config for this call.
    pub unit: Option<String>,
    /// Maximum log lines (capped by config `max_lines`).
    pub lines: Option<u32>,
}

/// The kinds of tool the agent can run.
#[derive(Debug, Clone, Copy, PartialEq, Eq)]
pub enum ToolKind {
    HostMemory,
    HostDisk,
    SystemdUnitStatus,
    SystemdListUnits,
    JournalQuery,
}

/// The kind a tool declaration names, or the error for an unknown kind.
pub open spec fn kind_of(name: Seq<char>, kind: Seq<char>) -> Result<ToolKind, ErrorView> {
    if kind == "host.memory"@ {
        Ok(ToolKind::HostMemory)
    } else if kind == "host.disk"@ {
        Ok(ToolKind::HostDisk)
    } else if kind == "systemd.unit_status"@ {
        Ok(ToolKind::SystemdUnitStatus)
    } else if kind == "systemd.list_units"@ {
        Ok(ToolKind::SystemdListUnits)
    } else if kind == "journal.query"@ {
        Ok(ToolKind::JournalQuery)
    } else {
        Err(ErrorView::Tool(name, "unknown tool kind `"@ + kind + "`"@))
    }
}

/// The kind of tool `tool` declares; an unknown kind is a tool error.
pub fn tool_kind(tool: &ToolConfig) -> (r: Result<ToolKind, RsagentError>)
    ensures
        match r {
            Ok(k) => kind_of(tool.name@, tool.kind@) == Ok::<ToolKind, ErrorView>(k),
            Err(e) => kind_of(tool.name@, tool.kind@) == Err::<ToolKind, ErrorView>(e@),
        },
{
    let kind = tool.kind.as_str();
    if str_eq(kind, "host.memory") {
        Ok(ToolKind::HostMemory)
    } else if str_eq(kind, "host.disk") {
        Ok(ToolKind::HostDisk)
    } else if str_eq(kind, "systemd.unit_status") {
        Ok(ToolKind::SystemdUnitStatus)
    } else if str_eq(kind, "systemd.list_units") {
        Ok(ToolKind::SystemdListUnits)
    } else if str_eq(kind, "journal.query") {
        Ok(ToolKind::JournalQuery)
    } else {
        let mut m = String::from_str("unknown tool kind `");
        m.append(kind);
        m.append("`");
        Err(RsagentError::Tool { name: tool.name.clone(), message: m })
    }
}

/// The required string parameter `key`.
pub open spec fn spec_param_string(params: Map<Seq<char>, ParamView>, key: Seq<char>) -> Result<
    Seq<char>,
    ErrorView,
> {
    match get_param(params, key) {
        Some(ParamView::Str(s)) => Ok(s),
        _ => Err(ErrorView::Config("missing params."@ + key)),
    }
}

/// The optional string parameter `key`.
pub open spec fn spec_param_string_opt(params: Map<Seq<char>, ParamView>, key: Seq<char>) -> Option<
    Seq<char>,
> {
    match get_param(params, key) {
        Some(ParamView::Str(s)) => Some(s),
        _ => None,
    }
}

/// The integer parameter `key` when it fits a `u32`, else `default`.
pub open spec fn spec_param_u32(params: Map<Seq<char>, ParamView>, key: Seq<char>, default: u32) -> u32 {
    match get_param(params, key) {
        Some(ParamView::Integer(i)) => if 0 <= i <= u32::MAX {
            i as u32
        } else {
            default
        },
        _ => default,
    }
}

/// The string parameter `key`; a missing or non-string value is a config error.
pub fn param_string(params: &ParamMap, key: &str) -> (r: Result<String, RsagentError>)
    ensures
        text_result(r) == spec_param_string(params@, key@),
{
    match params.get(key) {
        Some(v) => match v.as_str() {
            Some(s) => return Ok(s.to_owned()),
            None => {},
        },
        None => {},
    }
    let mut m = String::from_str("missing params.");
    m.append(key);
    Err(RsagentError::Config(m))
}

/// The string parameter `key`, if set to a string.
pub fn param_string_opt(params: &ParamMap, key: &str) -> (r: Option<String>)
    ensures
        opt_str_view(r) == spec_param_string_opt(params@, key@),
{
    match params.get(key) {
        Some(v) => match v.as_str() {
            Some(s) => Some(s.to_owned()),
            None => None,
        },
        None => None,
    }
}

/// The integer parameter `key` when set and within `u32`, else `default`.
pub fn param_u32(params: &ParamMap, key: &str, default: u32) -> (r: u32)
    ensures
        r == spec_param_u32(params@, key@, default),
{
    match params.get(key) {
        Some(v) => match v.as_integer() {
            Some(i) => if 0 <= i && i <= 0xffff_ffff {
                i as u32
            } else {
                default
            },
            None => default,
        },
        None => default,
    }
}

/// What reading `allowed_units` gives.
pub open spec fn spec_allowed_units(params: Map<Seq<char>, ParamView>) -> Result<
    Seq<Seq<char>>,
    ErrorView,
> {
    match get_param(params, "allowed_units"@) {
        None => Err(ErrorView::Config("systemd.unit_status requires params.allowed_units"@)),
        Some(ParamView::Array(items)) => if forall|i: int|
            0 <= i < items.len() ==> (#[trigger] items[i]) is Some {
            Ok(items.map_values(|o: Option<Seq<char>>| o->0))
        } else {
            Err(ErrorView::Config("allowed_units entries must be strings"@))
        },
        Some(_) => Err(ErrorView::Config("params.allowed_units must be an array of unit names"@)),
    }
}

/// A list of strings by its views.
pub open spec fn strings_view(v: Seq<String>) -> Seq<Seq<char>> {
    v.map_values(|s: String| s@)
}

/// The `allowed_units` parameter, which must be an array of strings.
pub fn ensure_allowed_units(params: &ParamMap) -> (r: Result<Vec<String>, RsagentError>)
    ensures
        match r {
            Ok(v) => spec_allowed_units(params@) == Ok::<Seq<Seq<char>>, ErrorView>(
                strings_view(v@),
            ),
            Err(e) => spec_allowed_units(params@) == Err::<Seq<Seq<char>>, ErrorView>(e@),
        },
{
    let value = match params.get("allowed_units") {
        Some(v) => v,
        None => {
            return Err(RsagentError::config("systemd.unit_status requires params.allowed_units"));
        },
    };
    let units = match value.as_array() {
        Some(u) => u,
        None => {
            return Err(
                RsagentError::config("params.allowed_units must be an array of unit names"),
            );
        },
    };
    let ghost items = opt_views(units@);
    let mut names: Vec<String> = Vec::new();
    for i in 0..units.len()
        invariant
            items == opt_views(units@),
            get_param(params@, "allowed_units"@) == Some(value@),
            value@ == ParamView::Array(items),
            names@.len() == i,
            forall|k: int| 0 <= k < i ==> (#[trigger] items[k]) is Some,
            forall|k: int| 0 <= k < i ==> names@[k]@ == (#[trigger] items[k])->0,
    {
        match &units[i] {
            Some(s) => names.push(s.clone()),
            None => {
                assert(items[i as int] is None);
                return Err(RsagentError::config("allowed_units entries must be strings"));
            },
        }
    }
    assert(strings_view(names@) =~= items.map_values(|o: Option<Seq<char>>| o->0));
    Ok(names)
}

/// The unit suffixes that may be inspected.
pub open spec fn unit_suffix_allowed(unit: Seq<char>) -> bool {
    ||| has_suffix(unit, ".service"@)
    ||| has_suffix(unit, ".timer"@)
    ||| has_suffix(unit, ".socket"@)
    ||| has_suffix(unit, ".target"@)
}

/// What checking `unit` against the allow-list gives.
pub open spec fn spec_validate_unit(tool_name: Seq<char>, unit: Seq<char>, allowed: Seq<Seq<char>>) -> Result<
    (),
    ErrorView,
> {
    if !unit_suffix_allowed(unit) {
        Err(
            ErrorView::Tool(
                tool_name,
                "only .service, .timer, .socket, and .target units are allowed"@,
            ),
        )
    } else if !allowed.contains(unit) {
        Err(ErrorView::Tool(tool_name, "unit `"@ + unit + "` is not in allowed_units"@))
    } else {
        Ok(())
    }
}

/// Checks that `unit` is a service, timer, socket or target unit and is
/// listed in `allowed`.
pub fn validate_unit(tool_name: &str, unit: &str, allowed: &[String]) -> (r: Result<
    (),
    RsagentError,
>)
    ensures
        unit_result(r) == spec_validate_unit(tool_name@, unit@, strings_view(allowed@)),
{
    if !ends_with(unit, ".service") && !ends_with(unit, ".timer") && !ends_with(unit, ".socket")
        && !ends_with(unit, ".target") {
        return Err(
            RsagentError::tool(
                tool_name,
                "only .service, .timer, .socket, and .target units are allowed",
            ),
        );
    }
    let ghost views = strings_view(allowed@);
    let mut i: usize = 0;
    while i < allowed.len()
        invariant
            i <= allowed@.len(),
            views == strings_view(allowed@),
            unit_suffix_allowed(unit@),
            forall|k: int| 0 <= k < i ==> views[k] != unit@,
        decreases allowed.len() - i,
    {
        if str_eq(allowed[i].as_str(), unit) {
            assert(views[i as int] == unit@);
            assert(views.contains(unit@));
            return Ok(());
        }
        i += 1;
    }
    let mut m = String::from_str("unit `");
    m.append(unit);
    m.append("` is not in allowed_units");
    Err(RsagentError::Tool { name: tool_name.to_owned(), message: m })
}

/// The note that ends a truncated output.
pub open spec fn truncation_note() -> Seq<char> {
    "…\n\n[truncated to 16000 chars]"@
}

/// A tool output as handed back: unchanged when at most
/// `MAX_OUTPUT_CHARS` bytes long, else its first `MAX_OUTPUT_CHARS` bytes
/// followed by a note.
pub open spec fn spec_truncate(text: &str) -> Seq<char> {
    if text.spec_bytes().len() <= MAX_OUTPUT_CHARS {
        text@
    } else {
        decode_utf8(text.spec_bytes().subrange(0, MAX_OUTPUT_CHARS as int)) + truncation_note()
    }
}

/// Bounds a tool's output to `MAX_OUTPUT_CHARS` bytes. The cut must fall on a
/// character boundary (slicing there otherwise panics).
pub fn truncate(text: &str) -> (r: String)
    requires
        text.spec_bytes().len() <= usize::MAX,
        text.spec_bytes().len() <= MAX_OUTPUT_CHARS || is_char_boundary(
            text.spec_bytes(),
            MAX_OUTPUT_CHARS as int,
        ),
    ensures
        r@ == spec_truncate(text),
{
    if text.len() <= MAX_OUTPUT_CHARS {
        return text.to_owned();
    }
    let (head, _tail) = text.split_at(MAX_OUTPUT_CHARS);
    proof {
        encode_utf8_decode_utf8(head@);
    }
    let mut r = head.to_owned();
    r.append("…\n\n[truncated to 16000 chars]");
    r
}

/// Encoding a concatenation encodes each part in turn.
pub proof fn lemma_encode_utf8_concat(a: Seq<char>, b: Seq<char>)
    ensures
        encode_utf8(a + b) == encode_utf8(a) + encode_utf8(b),
    decreases a.len(),
{
    if a.len() == 0 {
        assert(a + b =~= b);
        assert(encode_utf8(a) =~= Seq::<u8>::empty());
        assert(Seq::<u8>::empty() + encode_utf8(b) =~= encode_utf8(b));
    } else {
        assert((a + b).drop_first() =~= a.drop_first() + b);
        assert((a + b)[0] == a[0]);
        lemma_encode_utf8_concat(a.drop_first(), b);
        let h = vstd::utf8::encode_scalar(a[0] as u32);
        assert(h + (encode_utf8(a.drop_first()) + encode_utf8(b)) =~= (h + encode_utf8(
            a.drop_first(),
        )) + encode_utf8(b));
    }
}

/// A tool's output as handed back is at most `MAX_OUTPUT_CHARS` bytes plus
/// the truncation note.
pub proof fn law_truncated_output_is_bounded(text: &str)
    requires
        text.spec_bytes().len() <= MAX_OUTPUT_CHARS || is_char_boundary(
            text.spec_bytes(),
            MAX_OUTPUT_CHARS as int,
        ),
    ensures
        encode_utf8(spec_truncate(text)).len() <= MAX_OUTPUT_CHARS + encode_utf8(
            truncation_note(),
        ).len(),
        text.spec_bytes().len() <= MAX_OUTPUT_CHARS ==> spec_truncate(text) == text@,
{
    let bytes = text.spec_bytes();
    if bytes.len() > MAX_OUTPUT_CHARS {
        encode_utf8_valid_utf8(text@);
        valid_utf8_split(bytes, MAX_OUTPUT_CHARS as int);
        let head = bytes.subrange(0, MAX_OUTPUT_CHARS as int);
        decode_utf8_encode_utf8(head);
        lemma_encode_utf8_concat(decode_utf8(head), truncation_note());
    } else {
        encode_utf8_decode_utf8(text@);
    }
}

/// Whether the cut that `truncate` makes falls on a character boundary.
pub fn truncation_is_safe(text: &str) -> (r: bool)
    requires
        text.spec_bytes().len() <= usize::MAX,
    ensures
        r == (text.spec_bytes().len() <= MAX_OUTPUT_CHARS || is_char_boundary(
            text.spec_bytes(),
            MAX_OUTPUT_CHARS as int,
        )),
{
    text.len() <= MAX_OUTPUT_CHARS || text.is_char_boundary(MAX_OUTPUT_CHARS)
}

/// What checking a tool declaration before use gives.
pub open spec fn spec_validate_tool(tool: ToolConfig) -> Result<(), ErrorView> {
    let kind = tool.kind@;
    if kind == "host.memory"@ {
        Ok(())
    } else if kind == "host.disk"@ {
        Ok(())
    } else if kind == "systemd.unit_status"@ {
        match spec_allowed_units(tool.params@) {
            Ok(_) => Ok(()),
            Err(e) => Err(e),
        }
    } else if kind == "systemd.list_units"@ {
        Ok(())
    } else if kind == "journal.query"@ {
        match spec_param_string(tool.params@, "unit"@) {
            Ok(_) => Ok(()),
            Err(e) => Err(e),
        }
    } else {
        Err(ErrorView::Config("tool `"@ + tool.name@ + "`: unknown kind `"@ + kind + "`"@))
    }
}

/// Checks a tool declaration: its kind must be known, `systemd.unit_status`
/// needs an `allowed_units` array of strings, `journal.query` needs a
/// `unit` string.
pub fn validate_tool(tool: &ToolConfig) -> (r: Result<(), RsagentError>)
    ensures
        unit_result(r) == spec_validate_tool(*tool),
{
    let kind = tool.kind.as_str();
    if str_eq(kind, "host.memory") {
        Ok(())
    } else if str_eq(kind, "host.disk") {
        Ok(())
    } else if str_eq(kind, "systemd.unit_status") {
        match ensure_allowed_units(&tool.params) {
            Ok(_) => Ok(()),
            Err(e) => Err(e),
        }
    } else if str_eq(kind, "systemd.list_units") {
        Ok(())
    } else if str_eq(kind, "journal.query") {
        match param_string(&tool.params, "unit") {
            Ok(_) => Ok(()),
            Err(e) => Err(e),
        }
    } else {
        let mut m = String::from_str("tool `");
        m.append(tool.name.as_str());
        m.append("`: unknown kind `");
        m.append(kind);
        m.append("`");
        Err(RsagentError::Config(m))
    }
}

} // verus!
