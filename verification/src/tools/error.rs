//! Why a tool call fails.

use vstd::prelude::*;

verus! {

/// Why a tool call fails.
#[derive(Debug)]
pub enum ToolError {
    UnknownTool(String),
    InvalidArgs(String),
    Io(String),
    CommandFailed(String),
}

/// What a [`ToolError`] says.
pub enum ToolErrorView {
    UnknownTool(Seq<char>),
    InvalidArgs(Seq<char>),
    Io(Seq<char>),
    CommandFailed(Seq<char>),
}

impl View for ToolError {
    type V = ToolErrorView;

    open spec fn view(&self) -> ToolErrorView {
        match self {
            ToolError::UnknownTool(m) => ToolErrorView::UnknownTool(m@),
            ToolError::InvalidArgs(m) => ToolErrorView::InvalidArgs(m@),
            ToolError::Io(m) => ToolErrorView::Io(m@),
            ToolError::CommandFailed(m) => ToolErrorView::CommandFailed(m@),
        }
    }
}

/// The message of an error.
pub open spec fn error_text(e: ToolErrorView) -> Seq<char> {
    match e {
        ToolErrorView::UnknownTool(m) => "unknown tool: "@ + m,
        ToolErrorView::InvalidArgs(m) => "invalid args: "@ + m,
        ToolErrorView::Io(m) => "io error: "@ + m,
        ToolErrorView::CommandFailed(m) => "command failed: "@ + m,
    }
}

impl ToolError {
    /// The message of the error.
    pub fn message(&self) -> (r: String)
        ensures
            r@ == error_text(self@),
    {
        match self {
            ToolError::UnknownTool(m) => crate::text::cat("unknown tool: ", m.as_str()),
            ToolError::InvalidArgs(m) => crate::text::cat("invalid args: ", m.as_str()),
            ToolError::Io(m) => crate::text::cat("io error: ", m.as_str()),
            ToolError::CommandFailed(m) => crate::text::cat("command failed: ", m.as_str()),
        }
    }
}

/// What a tool call that answers with text says.
pub open spec fn outcome(r: Result<String, ToolError>) -> Result<Seq<char>, ToolErrorView> {
    match r {
        Ok(s) => Ok(s@),
        Err(e) => Err(e@),
    }
}

} // verus!
