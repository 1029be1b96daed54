use vstd::prelude::*;
use vstd::string::StringExecFns;

verus! {

/// The text that `str::to_lowercase` gives for a text.
pub uninterp spec fn lowercased(s: Seq<char>) -> Seq<char>;

/// `str::to_lowercase`: the text in lower case.
pub assume_specification[ str::to_lowercase ](s: &str) -> (lower: String)
    ensures
        lower@ == lowercased(s@),
;

/// What a call task calls.
#[derive(Debug, Clone, Copy, PartialEq, Eq, Structural)]
pub enum CallTarget {
    Http,
    OpenApi,
    AsyncApi,
    /// A function that this runtime does not know.
    Other,
}

/// The target that a function name in lower case stands for.
pub open spec fn target_of(lower: Seq<char>) -> CallTarget {
    if lower == "http"@ {
        CallTarget::Http
    } else if lower == "openapi"@ {
        CallTarget::OpenApi
    } else if lower == "asyncapi"@ {
        CallTarget::AsyncApi
    } else {
        CallTarget::Other
    }
}

/// The target of a call task, by the name of the function it calls; upper and lower case
/// are the same.
pub fn call_target(call: &str) -> (target: CallTarget)
    ensures
        target == target_of(lowercased(call@)),
{
    let lower = call.to_lowercase();
    if lower == String::from_str("http") {
        CallTarget::Http
    } else if lower == String::from_str("openapi") {
        CallTarget::OpenApi
    } else if lower == String::from_str("asyncapi") {
        CallTarget::AsyncApi
    } else {
        CallTarget::Other
    }
}

/// Tells whether a response with the status code `status` counts as a success: one of
/// the codes from 200 to 299, and, where redirects are allowed, from 300 to 399.
pub fn is_status_allowed(status: u16, redirect: bool) -> (allowed: bool)
    ensures
        allowed == (200 <= status <= 299 || (redirect && 300 <= status <= 399)),
{
    if redirect {
        200 <= status && status <= 399
    } else {
        200 <= status && status <= 299
    }
}

} // verus!
