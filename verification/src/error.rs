use vstd::prelude::*;

verus! {

/// A structured error report: the operation that failed, a short
/// description of the kind of failure, and the detailed message.
///
/// Bounds violations found while rendering are reported through this
/// type rather than by panicking; the caller abandons the render pass
/// for the frame and continues.
#[derive(Debug)]
pub struct Error {
    pub context: String,
    pub description: String,
    pub details: String,
}

impl Error {
    /// Wraps an underlying failure, keeping its description and detailed
    /// message together with the context in which it happened.
    pub fn new(context: String, description: String, details: String) -> (e: Error)
        ensures
            e.context@ == context@,
            e.description@ == description@,
            e.details@ == details@,
    {
        Error { context, description, details }
    }

    /// Builds an error from a context and a detail message alone.
    pub fn from_description(context: String, details: String) -> (e: Error)
        ensures
            e.context@ == context@,
            e.description@ == "a custom error"@,
            e.details@ == details@,
    {
        Error { context, description: "a custom error".to_owned(), details }
    }
}

} // verus!
