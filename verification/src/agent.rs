//! The interactive session's reading of each input line.
use vstd::prelude::*;

use crate::text::{is_white_space, lemma_trim_push_white_space, str_eq, trim, trim_str};

verus! {

/// What the interactive session does with one input line.
#[derive(Debug, Clone, PartialEq)]
pub enum ReplAction {
    /// A blank line: read the next one.
    Skip,
    /// `/exit` or `/quit`: end the session.
    Exit,
    /// `/clear`: forget the conversation.
    Clear,
    /// Anything else: send the trimmed line to the model.
    Prompt(String),
}

/// The abstract value of a [`ReplAction`].
pub enum ReplActionView {
    Skip,
    Exit,
    Clear,
    Prompt(Seq<char>),
}

impl View for ReplAction {
    type V = ReplActionView;

    open spec fn view(&self) -> ReplActionView {
        match self {
            ReplAction::Skip => ReplActionView::Skip,
            ReplAction::Exit => ReplActionView::Exit,
            ReplAction::Clear => ReplActionView::Clear,
            ReplAction::Prompt(p) => ReplActionView::Prompt(p@),
        }
    }
}

/// The action for a line, by its trimmed text.
pub open spec fn action_of(line: Seq<char>) -> ReplActionView {
    let t = trim(line);
    if t.len() == 0 {
        ReplActionView::Skip
    } else if t == "/exit"@ || t == "/quit"@ {
        ReplActionView::Exit
    } else if t == "/clear"@ {
        ReplActionView::Clear
    } else {
        ReplActionView::Prompt(t)
    }
}

/// Decides what the interactive session does with `line`.
pub fn classify_line(line: &str) -> (r: ReplAction)
    ensures
        r@ == action_of(line@),
{
    let t = trim_str(line);
    let ts = t.as_str();
    if ts.is_empty() {
        ReplAction::Skip
    } else if str_eq(ts, "/exit") || str_eq(ts, "/quit") {
        ReplAction::Exit
    } else if str_eq(ts, "/clear") {
        ReplAction::Clear
    } else {
        ReplAction::Prompt(t)
    }
}

/// Commands are read from the trimmed line: lines with the same trimmed text
/// get the same action, and a trailing newline (as a read line ends) changes
/// nothing. A line is skipped exactly when it is blank, ends the session
/// exactly when its trimmed text is `/exit` or `/quit`, clears the
/// conversation exactly when its trimmed text is `/clear`, and is otherwise
/// sent as its trimmed text.
pub proof fn law_commands_on_trimmed_line(line: Seq<char>, other: Seq<char>)
    ensures
        trim(line) == trim(other) ==> action_of(line) == action_of(other),
        action_of(line + "\n"@) == action_of(line),
        action_of(line) is Skip <==> trim(line).len() == 0,
        action_of(line) is Exit <==> (trim(line) == "/exit"@ || trim(line) == "/quit"@),
        action_of(line) is Clear <==> trim(line) == "/clear"@,
        action_of(line) is Prompt <==> (trim(line).len() > 0 && trim(line) != "/exit"@ && trim(
            line,
        ) != "/quit"@ && trim(line) != "/clear"@),
        action_of(line) matches ReplActionView::Prompt(p) ==> p == trim(line),
{
    reveal_strlit("\n");
    reveal_strlit("/exit");
    reveal_strlit("/quit");
    reveal_strlit("/clear");
    assert(line + "\n"@ =~= line.push('\n'));
    assert(is_white_space('\n'));
    lemma_trim_push_white_space(line, '\n');
}

} // verus!
