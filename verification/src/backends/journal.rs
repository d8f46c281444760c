//! `journal.query`: which unit, how many lines and from when to read the
//! journal, and how the entries found are shown.
use vstd::prelude::*;
use vstd::string::*;

use crate::backends::{param_string, param_u32, spec_param_string, spec_param_u32, JournalInput};
use crate::error::{ErrorView, RsagentError};
use crate::params::{get_param, opt_str_view, ParamMap, ParamView};
use crate::text::{
    decimal, decimal_string, ends_with, has_prefix, has_suffix, parse_u64, parse_unsigned,
    starts_with, strip_suffix,
};

verus! {

/// The bound on `max_lines` from the config.
pub const JOURNAL_LINES_CAP: u32 = 500;

/// What a journal query asks for.
#[derive(Debug, Clone, PartialEq)]
pub struct JournalRequest {
    /// The unit to read.
    pub unit: String,
    /// The most entries to show.
    pub lines: u32,
    /// How far back to read, as `-<n>h`, `-<n>m` or `-<n>d`.
    pub since: String,
    /// The configured priority (read, not yet applied).
    pub priority: Option<String>,
}

/// The smaller of two numbers.
pub open spec fn min_u32(a: u32, b: u32) -> u32 {
    if a <= b {
        a
    } else {
        b
    }
}

/// The string parameter `key`, or `default` when unset or not a string.
pub open spec fn str_param_or(params: Map<Seq<char>, ParamView>, key: Seq<char>, default: Seq<char>) -> Seq<char> {
    match get_param(params, key) {
        Some(ParamView::Str(s)) => s,
        _ => default,
    }
}

/// The string parameter `key`, if set to a string.
pub open spec fn str_param(params: Map<Seq<char>, ParamView>, key: Seq<char>) -> Option<Seq<char>> {
    match get_param(params, key) {
        Some(ParamView::Str(s)) => Some(s),
        _ => None,
    }
}

/// What a journal request holds: unit, lines, since, priority.
pub type JournalRequestView = (Seq<char>, u32, Seq<char>, Option<Seq<char>>);

/// The request a `journal.query` call makes: the configured `unit` must be
/// set; the call's unit overrides it; the line count is the call's, capped by
/// `max_lines` (default 100, at most 500); `since` defaults to `-1h`.
pub open spec fn journal_request_outcome(
    params: Map<Seq<char>, ParamView>,
    input_unit: Option<Seq<char>>,
    input_lines: Option<u32>,
) -> Result<JournalRequestView, ErrorView> {
    match spec_param_string(params, "unit"@) {
        Err(e) => Err(e),
        Ok(configured) => {
            let unit = match input_unit {
                Some(u) => u,
                None => configured,
            };
            let max_lines = min_u32(spec_param_u32(params, "max_lines"@, 100), JOURNAL_LINES_CAP);
            let lines = min_u32(
                match input_lines {
                    Some(l) => l,
                    None => max_lines,
                },
                max_lines,
            );
            Ok((unit, lines, str_param_or(params, "since"@, "-1h"@), str_param(params, "priority"@)))
        },
    }
}

impl JournalRequest {
    /// The request by its views.
    pub open spec fn view_tuple(&self) -> JournalRequestView {
        (self.unit@, self.lines, self.since@, opt_str_view(self.priority))
    }
}

/// The smaller of two numbers.
fn min_of(a: u32, b: u32) -> (r: u32)
    ensures
        r == min_u32(a, b),
{
    if a <= b {
        a
    } else {
        b
    }
}

/// Resolves what a `journal.query` call reads.
pub fn journal_request(params: &ParamMap, input: &JournalInput) -> (r: Result<
    JournalRequest,
    RsagentError,
>)
    ensures
        match r {
            Ok(q) => journal_request_outcome(params@, opt_str_view(input.unit), input.lines) == Ok::<
                JournalRequestView,
                ErrorView,
            >(q.view_tuple()),
            Err(e) => journal_request_outcome(params@, opt_str_view(input.unit), input.lines)
                == Err::<JournalRequestView, ErrorView>(e@),
        },
{
    let configured = match param_string(params, "unit") {
        Ok(u) => u,
        Err(e) => return Err(e),
    };
    let unit = match &input.unit {
        Some(u) => u.clone(),
        None => configured,
    };
    let max_lines = min_of(param_u32(params, "max_lines", 100), JOURNAL_LINES_CAP);
    let lines = min_of(
        match input.lines {
            Some(l) => l,
            None => max_lines,
        },
        max_lines,
    );
    let since = match params.get("since") {
        Some(v) => match v.as_str() {
            Some(s) => s.to_owned(),
            None => String::from_str("-1h"),
        },
        None => String::from_str("-1h"),
    };
    let priority = match params.get("priority") {
        Some(v) => match v.as_str() {
            Some(s) => Some(s.to_owned()),
            None => None,
        },
        None => None,
    };
    Ok(JournalRequest { unit, lines, since, priority })
}

/// A journal request never shows more lines than `max_lines` allows, nor
/// more than 500.
pub proof fn law_journal_lines_capped(
    params: Map<Seq<char>, ParamView>,
    input_unit: Option<Seq<char>>,
    input_lines: Option<u32>,
)
    requires
        journal_request_outcome(params, input_unit, input_lines) is Ok,
    ensures
        ({
            let q = journal_request_outcome(params, input_unit, input_lines)->Ok_0;
            q.1 <= JOURNAL_LINES_CAP && q.1 <= spec_param_u32(params, "max_lines"@, 100)
        }),
{
}

/// The journal field value for `unit`: a `.service` name as is, any other
/// name with `.service` appended.
pub open spec fn spec_unit_field(unit: Seq<char>) -> Seq<char> {
    if has_suffix(unit, ".service"@) {
        unit
    } else {
        unit + ".service"@
    }
}

/// The unit name the journal is searched for.
pub fn journal_unit_field(unit: &str) -> (r: String)
    ensures
        r@ == spec_unit_field(unit@),
{
    if ends_with(unit, ".service") {
        unit.to_owned()
    } else {
        let mut r = unit.to_owned();
        r.append(".service");
        r
    }
}

/// The number a `since` value gives, in `u64`, as `str::parse` reads it.
pub open spec fn since_number(s: Seq<char>) -> Option<nat> {
    match parse_unsigned(s) {
        Some(v) => if v <= u64::MAX {
            Some(v)
        } else {
            None
        },
        None => None,
    }
}

/// How far back, in microseconds, a `since` value reaches: `-<n>h`,
/// `-<n>m` or `-<n>d`.
pub open spec fn since_offset(since: Seq<char>) -> Result<nat, ErrorView> {
    if !has_prefix(since, "-"@) {
        Err(
            ErrorView::Tool(
                "journal.query"@,
                "unsupported since value `"@ + since + "` (use e.g. -1h, -30m, -24h)"@,
            ),
        )
    } else {
        let spec = since.subrange(1, since.len() as int);
        let invalid = ErrorView::Tool("journal.query"@, "invalid since value `"@ + since + "`"@);
        if has_suffix(spec, "h"@) {
            match since_number(spec.subrange(0, spec.len() - 1)) {
                Some(v) => Ok(v * 3600 * 1000000),
                None => Err(invalid),
            }
        } else if has_suffix(spec, "m"@) {
            match since_number(spec.subrange(0, spec.len() - 1)) {
                Some(v) => Ok(v * 60 * 1000000),
                None => Err(invalid),
            }
        } else if has_suffix(spec, "d"@) {
            match since_number(spec.subrange(0, spec.len() - 1)) {
                Some(v) => Ok(v * 86400 * 1000000),
                None => Err(invalid),
            }
        } else {
            Err(
                ErrorView::Tool(
                    "journal.query"@,
                    "unsupported since suffix in `"@ + since + "` (use h, m, or d)"@,
                ),
            )
        }
    }
}

/// The offset of a `since` value fits a `u64` (the multiplication that
/// computes it would otherwise overflow).
pub open spec fn since_fits(since: Seq<char>) -> bool {
    match since_offset(since) {
        Ok(o) => o <= u64::MAX,
        Err(_) => true,
    }
}

/// `now` moved back by `offset`, stopping at zero.
pub open spec fn back_from(now: u64, offset: nat) -> u64 {
    if offset >= now {
        0
    } else {
        (now - offset) as u64
    }
}

/// The error for a `since` value whose number does not parse.
fn invalid_since(since: &str) -> (e: RsagentError)
    ensures
        e@ == ErrorView::Tool("journal.query"@, "invalid since value `"@ + since@ + "`"@),
{
    let mut m = String::from_str("invalid since value `");
    m.append(since);
    m.append("`");
    RsagentError::Tool { name: String::from_str("journal.query"), message: m }
}

/// The number and the unit, in seconds, of a `since` value.
fn since_parts(since: &str) -> (r: Result<(u64, u64), RsagentError>)
    ensures
        match r {
            Ok((value, multiplier)) => since_offset(since@) == Ok::<nat, ErrorView>(
                (value as nat) * (multiplier as nat) * 1000000,
            ),
            Err(e) => since_offset(since@) == Err::<nat, ErrorView>(e@),
        },
{
    proof {
        reveal_strlit("-");
        reveal_strlit("h");
        reveal_strlit("m");
        reveal_strlit("d");
    }
    if !starts_with(since, "-") {
        let mut m = String::from_str("unsupported since value `");
        m.append(since);
        m.append("` (use e.g. -1h, -30m, -24h)");
        return Err(RsagentError::Tool { name: String::from_str("journal.query"), message: m });
    }
    let spec = match crate::text::strip_prefix(since, "-") {
        Some(s) => s,
        None => return Err(invalid_since(since)),
    };
    let (number, multiplier): (Option<String>, u64) = match strip_suffix(spec.as_str(), "h") {
        Some(n) => (Some(n), 3600),
        None => match strip_suffix(spec.as_str(), "m") {
            Some(n) => (Some(n), 60),
            None => match strip_suffix(spec.as_str(), "d") {
                Some(n) => (Some(n), 86400),
                None => (None, 0),
            },
        },
    };
    let number = match number {
        Some(n) => n,
        None => {
            let mut m = String::from_str("unsupported since suffix in `");
            m.append(since);
            m.append("` (use h, m, or d)");
            return Err(RsagentError::Tool { name: String::from_str("journal.query"), message: m });
        },
    };
    let value = match parse_u64(number.as_str()) {
        Some(v) => v,
        None => return Err(invalid_since(since)),
    };
    Ok((value, multiplier))
}

/// Whether the offset of `since` fits a `u64`.
pub fn since_offset_fits(since: &str) -> (r: bool)
    ensures
        r == since_fits(since@),
{
    match since_parts(since) {
        Ok((value, multiplier)) => match value.checked_mul(multiplier) {
            Some(a) => a.checked_mul(1000000).is_some(),
            None => {
                assert((value as nat) * (multiplier as nat) <= (value as nat) * (multiplier as nat)
                    * 1000000) by (nonlinear_arith);
                false
            },
        },
        Err(_) => true,
    }
}

/// The start time, in microseconds since the epoch, that `since` names when
/// the time is `now`.
pub fn since_start_us(since: &str, now: u64) -> (r: Result<u64, RsagentError>)
    requires
        since_fits(since@),
    ensures
        match r {
            Ok(v) => since_offset(since@) is Ok && v == back_from(now, since_offset(since@)->Ok_0),
            Err(e) => since_offset(since@) == Err::<nat, ErrorView>(e@),
        },
{
    match since_parts(since) {
        Ok((value, multiplier)) => {
            assert((value as nat) * (multiplier as nat) <= (value as nat) * (multiplier as nat)
                * 1000000) by (nonlinear_arith);
            Ok(now.saturating_sub(value * multiplier * 1_000_000))
        },
        Err(e) => Err(e),
    }
}

/// The current time in microseconds since the epoch (0 before the epoch).
#[verifier::external_body]
pub fn now_usec() -> u64 {
    std::time::SystemTime::now().duration_since(std::time::UNIX_EPOCH).unwrap_or_default().as_micros() as u64
}

/// The start time, in microseconds since the epoch, that `since` names now.
pub fn parse_since_us(since: &str) -> (r: Result<u64, RsagentError>)
    requires
        since_fits(since@),
    ensures
        match r {
            Ok(v) => since_offset(since@) is Ok && exists|now: u64|
                v == back_from(now, since_offset(since@)->Ok_0),
            Err(e) => since_offset(since@) == Err::<nat, ErrorView>(e@),
        },
{
    let now = now_usec();
    since_start_us(since, now)
}

/// One journal entry as shown.
#[derive(Debug, Clone, PartialEq)]
pub struct JournalEntry {
    /// Microseconds since the epoch.
    pub timestamp_utc: u64,
    pub message: String,
}

/// How one entry is shown.
pub open spec fn entry_line(e: JournalEntry) -> Seq<char> {
    "["@ + decimal(e.timestamp_utc as nat) + "] "@ + e.message@ + "\n"@
}

/// How a list of entries is shown.
pub open spec fn entries_text(es: Seq<JournalEntry>) -> Seq<char>
    decreases es.len(),
{
    if es.len() == 0 {
        seq![]
    } else {
        entries_text(es.drop_last()) + entry_line(es.last())
    }
}

/// The text a journal query answers with: a note when nothing was found,
/// else the first `lines` entries, one per line.
pub open spec fn journal_text(unit_field: Seq<char>, since: Seq<char>, es: Seq<JournalEntry>, lines: u32) -> Seq<char> {
    if es.len() == 0 {
        "No journal entries for `"@ + unit_field + "` since "@ + since
    } else if es.len() <= lines {
        entries_text(es)
    } else {
        entries_text(es.subrange(0, lines as int))
    }
}

/// Shows the entries a journal query found.
pub fn format_journal(unit_field: &str, since: &str, entries: &Vec<JournalEntry>, lines: u32) -> (r:
    String)
    ensures
        r@ == journal_text(unit_field@, since@, entries@, lines),
{
    if entries.len() == 0 {
        let mut r = String::from_str("No journal entries for `");
        r.append(unit_field);
        r.append("` since ");
        r.append(since);
        return r;
    }
    let count: usize = if entries.len() <= lines as usize {
        entries.len()
    } else {
        lines as usize
    };
    let mut out = String::new();
    let mut i: usize = 0;
    assert(entries@.subrange(0, 0) =~= Seq::<JournalEntry>::empty());
    while i < count
        invariant
            i <= count <= entries@.len(),
            out@ == entries_text(entries@.subrange(0, i as int)),
        decreases count - i,
    {
        let e = &entries[i];
        let ghost pre = entries@.subrange(0, i + 1);
        assert(pre.drop_last() =~= entries@.subrange(0, i as int));
        assert(pre.last() == *e);
        out.append("[");
        let ts = decimal_string(e.timestamp_utc as u128);
        out.append(ts.as_str());
        out.append("] ");
        out.append(e.message.as_str());
        out.append("\n");
        i += 1;
    }
    assert(entries@.subrange(0, entries@.len() as int) =~= entries@);
    out
}

} // verus!
