use rsagent::agent::{classify_line, ReplAction};
use rsagent::error::RsagentError;

#[test]
fn blank_lines_are_skipped() {
    assert_eq!(classify_line(""), ReplAction::Skip);
    assert_eq!(classify_line("   \t\n"), ReplAction::Skip);
}

#[test]
fn commands_are_recognised_after_trimming() {
    assert_eq!(classify_line("/exit"), ReplAction::Exit);
    assert_eq!(classify_line("  /quit\n"), ReplAction::Exit);
    assert_eq!(classify_line("/clear"), ReplAction::Clear);
    assert_eq!(classify_line("/EXIT"), ReplAction::Prompt("/EXIT".into()));
}

#[test]
fn other_lines_are_prompts() {
    assert_eq!(
        classify_line("  how much memory is free?  \n"),
        ReplAction::Prompt("how much memory is free?".into())
    );
    assert_eq!(classify_line("/exit now"), ReplAction::Prompt("/exit now".into()));
}

#[test]
fn errors_display_their_variant_and_text() {
    assert_eq!(RsagentError::config("bad").to_display(), "configuration: bad");
    assert_eq!(
        RsagentError::tool("host.disk", "no disk").to_display(),
        "tool `host.disk`: no disk"
    );
    assert_eq!(RsagentError::Other("boom".into()).to_display(), "boom");
    assert_eq!(RsagentError::config("x"), RsagentError::Config("x".into()));
    assert_eq!(
        RsagentError::tool("a", "b"),
        RsagentError::Tool { name: "a".into(), message: "b".into() }
    );
}
