use vstd::prelude::*;

use crate::errors::PipelineError;
use crate::urls::{url_parse_ok, url_path, url_path_of};

verus! {

/// The fixed local root under which every segment file is written.
pub open spec fn download_root() -> Seq<char> {
    "./download"@
}

/// The local destination for one segment: the fixed download root joined
/// with the URL's own path component, kept verbatim with its leading
/// slash.
pub fn segment_dest_path(link: &str) -> (r: Result<String, PipelineError>)
    ensures
        match r {
            Ok(p) => url_parse_ok(link@) && p@ == download_root() + url_path_of(link@),
            Err(e) => e == PipelineError::UrlParse && !url_parse_ok(link@),
        },
{
    match url_path(link) {
        Some(path) => {
            let mut s = String::new();
            s.append("./download");
            s.append(path.as_str());
            proof {
                assert(s@ =~= download_root() + url_path_of(link@));
            }
            Ok(s)
        },
        None => Err(PipelineError::UrlParse),
    }
}

/// A segment download is allowed to proceed only when the response states
/// its content length; a response without one is a precondition failure,
/// raised before anything touches the destination file.
pub fn require_content_length(len: Option<u64>) -> (r: Result<u64, PipelineError>)
    ensures
        match r {
            Ok(n) => len == Some(n),
            Err(e) => e == PipelineError::Precondition && len is None,
        },
{
    match len {
        Some(n) => Ok(n),
        None => Err(PipelineError::Precondition),
    }
}

} // verus!
