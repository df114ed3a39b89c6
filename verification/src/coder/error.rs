//! Errors of an agent run.

use crate::coder::executor::HistoryEntry;
use crate::text::{decimal, decimal_string};
use vstd::prelude::*;

verus! {

/// Errors that can end or interrupt an agent run. Errors that come from the
/// model client or the tools carry their message.
#[derive(Debug, Clone)]
pub enum CoderError {
    /// The planning agent returned an empty plan.
    EmptyPlan,
    /// The agent gave no first answer.
    AgentNoInitialResponse,
    /// The agent stopped answering; the history so far.
    AgentStoppedResponding(Vec<HistoryEntry>),
    /// The run reached its iteration limit.
    MaxIterationsReached(usize),
    /// A completion request failed.
    CompletionError(String),
    /// A tool failed.
    ToolError(String),
    /// The arguments of a tool call could not be serialized.
    ToolArgsSerializationError(String),
    /// Another failure of the agent.
    AgentError(String),
    /// An internal failure.
    Internal(String),
}

/// The message of `e`.
pub open spec fn coder_error_message(e: CoderError) -> Seq<char> {
    match e {
        CoderError::EmptyPlan => "Pro agent returned an empty plan"@,
        CoderError::AgentNoInitialResponse => "Agent provided no initial response"@,
        CoderError::AgentStoppedResponding(_) => "Agent stopped responding"@,
        CoderError::MaxIterationsReached(n) => "Junior execution reached maximum iterations ("@ + decimal(n as nat) + ")"@,
        CoderError::CompletionError(m) => "Agent completion request failed: "@ + m@,
        CoderError::ToolError(m) => "Tool execution failed: "@ + m@,
        CoderError::ToolArgsSerializationError(m) => "Failed to serialize tool arguments: "@ + m@,
        CoderError::AgentError(m) => "Agent error: "@ + m@,
        CoderError::Internal(m) => "Internal coder error: "@ + m@,
    }
}

fn labelled(label: &str, detail: &String) -> (s: String)
    ensures
        s@ == label@ + detail@,
{
    let mut s = String::from_str(label);
    s.append(detail.as_str());
    s
}

impl CoderError {
    /// The message of the error (see `coder_error_message`).
    pub fn message(&self) -> (s: String)
        ensures
            s@ == coder_error_message(*self),
    {
        match self {
            CoderError::EmptyPlan => String::from_str("Pro agent returned an empty plan"),
            CoderError::AgentNoInitialResponse => String::from_str("Agent provided no initial response"),
            CoderError::AgentStoppedResponding(_) => String::from_str("Agent stopped responding"),
            CoderError::MaxIterationsReached(n) => {
                let mut s = String::from_str("Junior execution reached maximum iterations (");
                let d = decimal_string(*n as u64);
                s.append(d.as_str());
                s.append(")");
                s
            },
            CoderError::CompletionError(m) => labelled("Agent completion request failed: ", m),
            CoderError::ToolError(m) => labelled("Tool execution failed: ", m),
            CoderError::ToolArgsSerializationError(m) => labelled("Failed to serialize tool arguments: ", m),
            CoderError::AgentError(m) => labelled("Agent error: ", m),
            CoderError::Internal(m) => labelled("Internal coder error: ", m),
        }
    }

    /// Whether the error ends a whole session: a failed completion request,
    /// the iteration limit, or an agent that gave no answer or stopped.
    pub fn is_fatal(&self) -> (b: bool)
        ensures
            b == (self is CompletionError || self is MaxIterationsReached || self is AgentNoInitialResponse
                || self is AgentStoppedResponding),
    {
        match self {
            CoderError::CompletionError(_) | CoderError::MaxIterationsReached(_) | CoderError::AgentNoInitialResponse
            | CoderError::AgentStoppedResponding(_) => true,
            _ => false,
        }
    }
}

} // verus!
