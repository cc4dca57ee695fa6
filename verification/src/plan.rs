use vstd::prelude::*;

use crate::errors::PipelineError;
use crate::keys::{
    empty_key_model, get_key_info, key_info_of, key_tag, lemma_no_key_line_empty_mapping, KeyInfo,
    KeyModel,
};
use crate::playlist::{
    get_ts_list, is_valid_playlist, playlist_refs, validate_m3u8_content,
};
use crate::text::{spec_lines, starts_with};
use crate::urls::{url_join_of, url_parse_ok};

verus! {

/// What the orchestrator decided to do for one playlist.
pub enum PlaylistPlan {
    /// The playlist text failed validation; nothing is parsed or
    /// downloaded, and the run ends cleanly.
    Invalid,
    /// The resolved segment URLs, in download order, and the key URI to
    /// fetch first, when a key directive calls for one.
    Run { segments: Vec<String>, key_fetch: Option<String> },
}

/// The key URI the orchestrator fetches before downloading: present
/// exactly when the mapping holds a non-empty method together with a URI.
pub open spec fn key_fetch_uri(m: KeyModel) -> Option<Seq<char>> {
    match m.method {
        Option::None => Option::None,
        Option::Some(meth) => if meth.len() == 0 {
            Option::None
        } else {
            m.uri
        },
    }
}

/// Decides whether a key fetch is owed, as `key_fetch_uri` describes.
pub fn key_fetch_plan(k: &KeyInfo) -> (r: Option<String>)
    ensures
        match r {
            Some(u) => key_fetch_uri(k@) == Some(u@),
            None => key_fetch_uri(k@) is None,
        },
{
    match &k.method {
        None => None,
        Some(meth) => {
            if meth.as_str().unicode_len() == 0 {
                None
            } else {
                match &k.uri {
                    Some(u) => Some(u.clone()),
                    None => None,
                }
            }
        },
    }
}

/// A playlist with no key-tag line yields the empty key mapping, so the
/// orchestrator skips the key-fetch path entirely.
pub proof fn lemma_no_key_line_no_fetch(t: Seq<char>)
    requires
        forall|i: int|
            0 <= i < spec_lines(t).len() ==> !starts_with(#[trigger] spec_lines(t)[i], key_tag()),
    ensures
        key_info_of(t) == empty_key_model(),
        key_fetch_uri(key_info_of(t)) is None,
{
    lemma_no_key_line_empty_mapping(t);
}

/// Drives the decisions of the end-to-end flow on fetched playlist text:
/// validate, parse the segment references, resolve each against the
/// playlist's own URL, and read the key directive. Invalid text yields a
/// clean `Invalid` plan before any parsing result is consulted.
pub fn make_plan(link: &str, text: &str) -> (r: Result<PlaylistPlan, PipelineError>)
    ensures
        !is_valid_playlist(text@) ==> r == Ok::<PlaylistPlan, PipelineError>(
            PlaylistPlan::Invalid,
        ),
        match r {
            Ok(p) => match p {
                PlaylistPlan::Invalid => !is_valid_playlist(text@),
                PlaylistPlan::Run { segments, key_fetch } => {
                    &&& is_valid_playlist(text@)
                    &&& url_parse_ok(link@)
                    &&& segments@.len() == playlist_refs(text@).len()
                    &&& forall|k: int|
                        0 <= k < segments@.len() ==> url_join_of(
                            link@,
                            playlist_refs(text@)[k],
                        ) == Some(#[trigger] segments@[k]@) && url_parse_ok(segments@[k]@)
                    &&& match key_fetch {
                        Some(u) => key_fetch_uri(key_info_of(text@)) == Some(u@),
                        None => key_fetch_uri(key_info_of(text@)) is None,
                    }
                },
            },
            Err(e) => {
                &&& is_valid_playlist(text@)
                &&& e == PipelineError::UrlParse
                &&& (!url_parse_ok(link@) || exists|k: int|
                    0 <= k < playlist_refs(text@).len() && url_join_of(
                        link@,
                        #[trigger] playlist_refs(text@)[k],
                    ) is None)
            },
        },
{
    if !validate_m3u8_content(text) {
        return Ok(PlaylistPlan::Invalid);
    }
    let segments = match get_ts_list(link, text) {
        Ok(v) => v,
        Err(e) => {
            return Err(e);
        },
    };
    let ki = get_key_info(text);
    let key_fetch = key_fetch_plan(&ki);
    Ok(PlaylistPlan::Run { segments, key_fetch })
}

} // verus!
