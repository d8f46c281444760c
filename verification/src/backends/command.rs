//! What a tool that runs a local program answers with: its trimmed output
//! and error streams, bounded in size, or a note when there are none.
use vstd::prelude::*;
use vstd::string::*;
use vstd::utf8::{decode_utf8, encode_utf8_decode_utf8, is_char_boundary};

use crate::error::{text_result, ErrorView, RsagentError};
use crate::text::{trim, trim_str};

verus! {

/// The longest command output handed back, in bytes.
pub const MAX_COMMAND_OUTPUT: usize = 16000;

/// The trimmed standard output and standard error, one after the other on
/// separate lines, leaving out an empty one.
pub open spec fn combined_output(stdout: Seq<char>, stderr: Seq<char>) -> Seq<char> {
    let o = trim(stdout);
    let e = trim(stderr);
    if e.len() == 0 {
        o
    } else if o.len() == 0 {
        e
    } else {
        o + "\n"@ + e
    }
}

/// The UTF-8 bytes of a text.
pub open spec fn utf8_len(s: Seq<char>) -> nat {
    vstd::utf8::encode_utf8(s).len()
}

/// The combined output can be cut at `MAX_COMMAND_OUTPUT` bytes (the cut
/// must fall on a character boundary).
pub open spec fn command_cut_ok(stdout: Seq<char>, stderr: Seq<char>) -> bool {
    let t = vstd::utf8::encode_utf8(combined_output(stdout, stderr));
    t.len() <= MAX_COMMAND_OUTPUT || is_char_boundary(t, MAX_COMMAND_OUTPUT as int)
}

/// What running a program answers with: a failure with no output is a tool
/// error naming the exit status; longer output is cut to
/// `MAX_COMMAND_OUTPUT` bytes and marked; no output at all is said so.
pub open spec fn command_outcome(
    tool: Seq<char>,
    program: Seq<char>,
    success: bool,
    status: Seq<char>,
    stdout: Seq<char>,
    stderr: Seq<char>,
) -> Result<Seq<char>, ErrorView> {
    let text = combined_output(stdout, stderr);
    let bytes = vstd::utf8::encode_utf8(text);
    if !success && text.len() == 0 {
        Err(ErrorView::Tool(tool, "`"@ + program + "` exited with "@ + status))
    } else if bytes.len() > MAX_COMMAND_OUTPUT {
        Ok(decode_utf8(bytes.subrange(0, MAX_COMMAND_OUTPUT as int)) + "\n[truncated]"@)
    } else if text.len() == 0 {
        Ok("`"@ + program + "` completed successfully with no output"@)
    } else {
        Ok(text)
    }
}

/// Joins the trimmed streams.
fn combine(stdout: &str, stderr: &str) -> (r: String)
    ensures
        r@ == combined_output(stdout@, stderr@),
{
    let o = trim_str(stdout);
    let e = trim_str(stderr);
    let mut text = String::new();
    if !o.as_str().is_empty() {
        text.append(o.as_str());
    }
    if !e.as_str().is_empty() {
        if !text.as_str().is_empty() {
            text.append("\n");
        }
        text.append(e.as_str());
    }
    assert(Seq::<char>::empty() + o@ =~= o@);
    assert(Seq::<char>::empty() + e@ =~= e@);
    text
}

/// Whether the combined output of the streams can be cut where it must be.
pub fn command_output_cut_ok(stdout: &str, stderr: &str) -> (r: bool)
    requires
        utf8_len(combined_output(stdout@, stderr@)) <= usize::MAX,
    ensures
        r == command_cut_ok(stdout@, stderr@),
{
    let text = combine(stdout, stderr);
    let s = text.as_str();
    s.len() <= MAX_COMMAND_OUTPUT || s.is_char_boundary(MAX_COMMAND_OUTPUT)
}

/// What a program that ran answers with, from its exit (`success` and the
/// exit status as displayed) and its output streams.
pub fn command_output(
    tool: &str,
    program: &str,
    success: bool,
    status: &str,
    stdout: &str,
    stderr: &str,
) -> (r: Result<String, RsagentError>)
    requires
        utf8_len(combined_output(stdout@, stderr@)) <= usize::MAX,
        command_cut_ok(stdout@, stderr@),
    ensures
        text_result(r) == command_outcome(tool@, program@, success, status@, stdout@, stderr@),
{
    let text = combine(stdout, stderr);
    if !success && text.as_str().is_empty() {
        let mut m = String::from_str("`");
        m.append(program);
        m.append("` exited with ");
        m.append(status);
        return Err(RsagentError::Tool { name: tool.to_owned(), message: m });
    }
    let s = text.as_str();
    if s.len() > MAX_COMMAND_OUTPUT {
        let (head, _rest) = s.split_at(MAX_COMMAND_OUTPUT);
        proof {
            encode_utf8_decode_utf8(head@);
        }
        let mut out = head.to_owned();
        out.append("\n[truncated]");
        return Ok(out);
    }
    if s.is_empty() {
        let mut m = String::from_str("`");
        m.append(program);
        m.append("` completed successfully with no output");
        return Ok(m);
    }
    Ok(text)
}

} // verus!
