//! The uniform result record and error type shared by every tool.
use vstd::prelude::*;

verus! {

/// The view of an optional string: its characters, if present.
pub open spec fn str_opt(o: Option<String>) -> Option<Seq<char>> {
    match o {
        Some(s) => Some(s@),
        None => None,
    }
}

/// Outcome record handed back to the orchestrator by every tool operation.
/// All fields are independently optional; a result with every field empty is
/// a valid acknowledgement.
#[derive(Debug)]
pub struct ToolResult {
    /// Output text of the operation.
    pub output: Option<String>,
    /// Recoverable, caller-visible failure detail.
    pub error: Option<String>,
    /// Base64-encoded image data.
    pub base64_image: Option<String>,
    /// Advisory text for the caller (e.g. a restart hint).
    pub system: Option<String>,
}

/// Failure raised by a tool operation before it can produce a result.
#[derive(Debug)]
pub struct ToolError {
    pub message: String,
}

impl ToolResult {
    /// A successful result carrying only output text.
    pub fn success(output: String) -> (r: ToolResult)
        ensures
            r.output == Some(output),
            r.error is None,
            r.base64_image is None,
            r.system is None,
    {
        ToolResult { output: Some(output), error: None, base64_image: None, system: None }
    }

    /// A result carrying only a failure detail.
    pub fn error(error: String) -> (r: ToolResult)
        ensures
            r.output is None,
            r.error == Some(error),
            r.base64_image is None,
            r.system is None,
    {
        ToolResult { output: None, error: Some(error), base64_image: None, system: None }
    }

    /// The same result with the image field set.
    pub fn with_image(self, base64_image: String) -> (r: ToolResult)
        ensures
            r.output == self.output,
            r.error == self.error,
            r.base64_image == Some(base64_image),
            r.system == self.system,
    {
        ToolResult { base64_image: Some(base64_image), ..self }
    }

    /// The same result with the advisory field set.
    pub fn with_system(self, system: String) -> (r: ToolResult)
        ensures
            r.output == self.output,
            r.error == self.error,
            r.base64_image == self.base64_image,
            r.system == Some(system),
    {
        ToolResult { system: Some(system), ..self }
    }
}

impl ToolError {
    pub fn new(message: String) -> (r: ToolError)
        ensures
            r.message == message,
    {
        ToolError { message }
    }

    /// The failure detail as text (in place of a `Display` impl).
    pub fn message(&self) -> (r: &String)
        ensures
            r == self.message,
    {
        &self.message
    }
}

impl From<ToolError> for ToolResult {
    /// Surfaces a tool failure as a result whose only set field is `error`.
    fn from(error: ToolError) -> (r: ToolResult) {
        ToolResult::error(error.message)
    }
}

impl vstd::std_specs::convert::FromSpecImpl<ToolError> for ToolResult {
    open spec fn obeys_from_spec() -> bool {
        true
    }

    open spec fn from_spec(error: ToolError) -> ToolResult {
        ToolResult {
            output: None,
            error: Some(error.message),
            base64_image: None,
            system: None,
        }
    }
}

} // verus!
