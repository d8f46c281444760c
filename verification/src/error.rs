//! The library's error type and its abstract view.
use vstd::prelude::*;
use vstd::string::*;

verus! {

/// Errors raised while loading the configuration or running a tool.
#[derive(Debug, Clone, PartialEq)]
pub enum RsagentError {
    /// A configuration problem, with its message.
    Config(String),
    /// A failure of the named tool, with its message.
    Tool { name: String, message: String },
    /// Any other failure (I/O, the model provider, serialisation), by its message.
    Other(String),
}

/// An error as the contracts speak of it: its variant and its texts.
pub enum ErrorView {
    Config(Seq<char>),
    Tool(Seq<char>, Seq<char>),
    Other(Seq<char>),
}

impl View for RsagentError {
    type V = ErrorView;

    open spec fn view(&self) -> ErrorView {
        match self {
            RsagentError::Config(m) => ErrorView::Config(m@),
            RsagentError::Tool { name, message } => ErrorView::Tool(name@, message@),
            RsagentError::Other(m) => ErrorView::Other(m@),
        }
    }
}

/// A text-producing result, by its views.
pub open spec fn text_result(r: Result<String, RsagentError>) -> Result<Seq<char>, ErrorView> {
    match r {
        Ok(s) => Ok(s@),
        Err(e) => Err(e@),
    }
}

/// A result with no value, by its views.
pub open spec fn unit_result(r: Result<(), RsagentError>) -> Result<(), ErrorView> {
    match r {
        Ok(_) => Ok(()),
        Err(e) => Err(e@),
    }
}

/// The text an error displays as.
pub open spec fn display(e: ErrorView) -> Seq<char> {
    match e {
        ErrorView::Config(m) => "configuration: "@ + m,
        ErrorView::Tool(name, message) => "tool `"@ + name + "`: "@ + message,
        ErrorView::Other(m) => m,
    }
}

impl RsagentError {
    /// A configuration error carrying `msg`.
    pub fn config(msg: &str) -> (e: RsagentError)
        ensures
            e@ == ErrorView::Config(msg@),
    {
        RsagentError::Config(msg.to_owned())
    }

    /// A tool error for the tool `name`, carrying `message`.
    pub fn tool(name: &str, message: &str) -> (e: RsagentError)
        ensures
            e@ == ErrorView::Tool(name@, message@),
    {
        RsagentError::Tool { name: name.to_owned(), message: message.to_owned() }
    }

    /// The text this error displays as.
    pub fn to_display(&self) -> (s: String)
        ensures
            s@ == display(self@),
    {
        match self {
            RsagentError::Config(m) => {
                let mut s = String::from_str("configuration: ");
                s.append(m.as_str());
                s
            },
            RsagentError::Tool { name, message } => {
                let mut s = String::from_str("tool `");
                s.append(name.as_str());
                s.append("`: ");
                s.append(message.as_str());
                s
            },
            RsagentError::Other(m) => m.clone(),
        }
    }
}

} // verus!
