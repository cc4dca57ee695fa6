use vstd::prelude::*;

verus! {

/// The failure kinds of the pipeline, one variant per error family.
#[derive(Clone, Copy, PartialEq, Eq, Structural, Debug)]
pub enum PipelineError {
    /// A transport failure while fetching the playlist, a key, or a segment.
    Network,
    /// A malformed base URL, or a segment reference that cannot be joined
    /// against it.
    UrlParse,
    /// A response that does not state its content length.
    Precondition,
    /// A failure creating the download directory or writing a segment file.
    Filesystem,
}

impl PipelineError {
    /// A short description of the error, for user-facing reporting.
    pub fn message(&self) -> (r: &'static str)
        ensures
            *self is Network ==> r@ == "network error"@,
            *self is UrlParse ==> r@ == "url parse error"@,
            *self is Precondition ==> r@ == "missing content length"@,
            *self is Filesystem ==> r@ == "filesystem error"@,
    {
        match self {
            PipelineError::Network => "network error",
            PipelineError::UrlParse => "url parse error",
            PipelineError::Precondition => "missing content length",
            PipelineError::Filesystem => "filesystem error",
        }
    }
}

} // verus!
