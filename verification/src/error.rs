//! The server's error taxonomy: lookup failures, marshalling failures,
//! capability invalidation, registry poisoning, and handler failures.

use vstd::prelude::*;

verus! {

/// One error of the server core. Each variant renders to the message the
/// protocol surface carries.
#[derive(Debug, PartialEq, Eq)]
pub enum McpError {
    /// A call named a tool that no registration created.
    UnknownTool(String),
    /// A request named a prompt that no registration created.
    UnknownPrompt,
    /// A value could not cross the host boundary; carries the underlying message.
    Marshal(String),
    /// A runtime-access capability was used after its request completed.
    CapabilityInvalid,
    /// A registry was poisoned by a panic in an earlier critical section.
    LockPoisoned(String),
    /// The handler itself failed; carries the message it raised.
    Handler(String),
}

impl McpError {
    /// The message each error renders to.
    pub open spec fn message_view(self) -> Seq<char> {
        match self {
            McpError::UnknownTool(name) => "Unknown tool: "@ + name@,
            McpError::UnknownPrompt => "Unknown prompt"@,
            McpError::Marshal(m) => "marshalling failed: "@ + m@,
            McpError::CapabilityInvalid => "McpServer reference is no longer valid"@,
            McpError::LockPoisoned(which) => which@ + " mutex poisoned"@,
            McpError::Handler(m) => m@,
        }
    }

    /// Renders the error message.
    pub fn message(&self) -> (r: String)
        ensures
            r@ == self.message_view(),
    {
        match self {
            McpError::UnknownTool(name) => String::from_str("Unknown tool: ").concat(
                name.as_str(),
            ),
            McpError::UnknownPrompt => String::from_str("Unknown prompt"),
            McpError::Marshal(m) => String::from_str("marshalling failed: ").concat(m.as_str()),
            McpError::CapabilityInvalid => String::from_str(
                "McpServer reference is no longer valid",
            ),
            McpError::LockPoisoned(which) => which.clone().concat(" mutex poisoned"),
            McpError::Handler(m) => m.clone(),
        }
    }
}

} // verus!
