use hlsget::errors::PipelineError;
use hlsget::keys::get_key_info;
use hlsget::plan::{key_fetch_plan, make_plan, PlaylistPlan};
use hlsget::playlist::{get_ts_list, validate_m3u8_content};
use hlsget::urls::resolve_segment_url;
use hlsget::{require_content_length, segment_dest_path, KeyInfo};

const BASE: &str = "http://host/dir/playlist.m3u8";

#[test]
fn validate_accepts_header() {
    assert!(validate_m3u8_content("#EXTM3U\n#EXTINF:10,\nseg1.ts\n"));
    assert!(validate_m3u8_content("#EXTM3U"));
}

#[test]
fn validate_rejects_other_text() {
    assert!(!validate_m3u8_content("not a playlist"));
    assert!(!validate_m3u8_content(""));
    assert!(!validate_m3u8_content(" #EXTM3U"));
    assert!(!validate_m3u8_content("#EXTM3"));
}

#[test]
fn invalid_playlist_is_not_parsed() {
    let r = make_plan(BASE, "junk\n#EXTINF:10,\nseg1.ts\n#EXT-X-ENDLIST\n");
    assert!(matches!(r, Ok(PlaylistPlan::Invalid)));
}

#[test]
fn pairs_parse_in_file_order() {
    let text = "#EXTM3U\n#EXTINF:10,\nseg1.ts\n#EXTINF:10,\nseg2.ts\n#EXTINF:10,\nseg3.ts\n#EXT-X-ENDLIST\n";
    let v = get_ts_list(BASE, text).unwrap();
    assert_eq!(
        v,
        vec![
            "http://host/dir/seg1.ts".to_string(),
            "http://host/dir/seg2.ts".to_string(),
            "http://host/dir/seg3.ts".to_string(),
        ]
    );
}

#[test]
fn resolve_relative_reference() {
    let r = resolve_segment_url(BASE, "seg1.ts").unwrap();
    assert_eq!(r, "http://host/dir/seg1.ts");
}

#[test]
fn resolve_absolute_path_reference() {
    let r = resolve_segment_url(BASE, "/abs/seg2.ts").unwrap();
    assert_eq!(r, "http://host/abs/seg2.ts");
}

#[test]
fn resolve_fails_on_bad_base() {
    let r = resolve_segment_url("not a url", "seg1.ts");
    assert_eq!(r, Err(PipelineError::UrlParse));
}

#[test]
fn resolve_fails_on_unjoinable_reference() {
    let r = resolve_segment_url("mailto:alice@example.com", "seg1.ts");
    assert_eq!(r, Err(PipelineError::UrlParse));
}

#[test]
fn ts_list_fails_on_bad_base() {
    let r = get_ts_list("not a url", "#EXTM3U\n#EXTINF:10,\nseg1.ts\n#EXT-X-ENDLIST\n");
    assert_eq!(r, Err(PipelineError::UrlParse));
}

#[test]
fn info_tag_without_reference_yields_nothing() {
    let v = get_ts_list(BASE, "#EXTM3U\n#EXTINF:10,\n").unwrap();
    assert!(v.is_empty());
}

#[test]
fn comments_and_other_tags_are_ignored() {
    let text = "#EXTM3U\n#EXT-X-VERSION:3\n#EXTINF:10,\nseg1.ts\n# a comment\n#EXT-X-ENDLIST\n";
    let v = get_ts_list(BASE, text).unwrap();
    assert_eq!(v, vec!["http://host/dir/seg1.ts".to_string()]);
}

#[test]
fn nothing_beyond_first_endlist() {
    let cut = "#EXTM3U\n#EXTINF:10,\nseg1.ts\n#EXT-X-ENDLIST\n";
    let longer = "#EXTM3U\n#EXTINF:10,\nseg1.ts\n#EXT-X-ENDLIST\n#EXTINF:10,\nseg2.ts\n#EXT-X-ENDLIST\n";
    let a = get_ts_list(BASE, cut).unwrap();
    let b = get_ts_list(BASE, longer).unwrap();
    assert_eq!(a, b);
    assert_eq!(a, vec!["http://host/dir/seg1.ts".to_string()]);
}

#[test]
fn key_line_yields_all_three_fields() {
    let k = get_key_info("#EXT-X-KEY:METHOD=AES-128,URI=\"https://k/key\",IV=0x0102");
    assert_eq!(k.method, Some("AES-128".to_string()));
    assert_eq!(k.uri, Some("https://k/key".to_string()));
    assert_eq!(k.iv, Some("0x0102".to_string()));
}

#[test]
fn no_key_line_yields_empty_mapping() {
    let k = get_key_info("#EXTM3U\n#EXTINF:10,\nseg1.ts\n#EXT-X-ENDLIST\n");
    assert_eq!(k.method, None);
    assert_eq!(k.iv, None);
    assert_eq!(k.uri, None);
    assert_eq!(key_fetch_plan(&k), None);
}

#[test]
fn later_key_line_wins() {
    let text = "#EXT-X-KEY:METHOD=AES-128,IV=0x01\n#EXT-X-KEY:METHOD=NONE\n";
    let k = get_key_info(text);
    assert_eq!(k.method, Some("NONE".to_string()));
    assert_eq!(k.iv, Some("0x01".to_string()));
    assert_eq!(k.uri, None);
}

#[test]
fn unrecognized_attributes_are_ignored() {
    let k = get_key_info("#EXT-X-KEY:KEYFORMAT=identity,METHOD=AES-128");
    assert_eq!(k.method, Some("AES-128".to_string()));
    assert_eq!(k.iv, None);
    assert_eq!(k.uri, None);
}

#[test]
fn key_fetch_needs_nonempty_method_and_uri() {
    let no_method = KeyInfo { method: None, iv: None, uri: Some("http://k/key".to_string()) };
    assert_eq!(key_fetch_plan(&no_method), None);
    let empty_method = KeyInfo {
        method: Some(String::new()),
        iv: None,
        uri: Some("http://k/key".to_string()),
    };
    assert_eq!(key_fetch_plan(&empty_method), None);
    let no_uri = KeyInfo { method: Some("AES-128".to_string()), iv: None, uri: None };
    assert_eq!(key_fetch_plan(&no_uri), None);
    let both = KeyInfo {
        method: Some("AES-128".to_string()),
        iv: None,
        uri: Some("http://k/key".to_string()),
    };
    assert_eq!(key_fetch_plan(&both), Some("http://k/key".to_string()));
}

#[test]
fn plan_runs_unencrypted_playlist() {
    let text = "#EXTM3U\n#EXTINF:10,\nseg1.ts\n#EXTINF:10,\nseg2.ts\n#EXT-X-ENDLIST\n";
    match make_plan(BASE, text) {
        Ok(PlaylistPlan::Run { segments, key_fetch }) => {
            assert_eq!(
                segments,
                vec![
                    "http://host/dir/seg1.ts".to_string(),
                    "http://host/dir/seg2.ts".to_string(),
                ]
            );
            assert_eq!(key_fetch, None);
        },
        _ => panic!("expected a run plan"),
    }
}

#[test]
fn plan_fetches_key_when_directed() {
    let text = "#EXTM3U\n#EXT-X-KEY:METHOD=AES-128,URI=\"https://k/key\"\n#EXTINF:10,\nseg1.ts\n#EXT-X-ENDLIST\n";
    match make_plan(BASE, text) {
        Ok(PlaylistPlan::Run { segments, key_fetch }) => {
            assert_eq!(segments, vec!["http://host/dir/seg1.ts".to_string()]);
            assert_eq!(key_fetch, Some("https://k/key".to_string()));
        },
        _ => panic!("expected a run plan"),
    }
}

#[test]
fn dest_path_joins_root_and_url_path() {
    let p = segment_dest_path("http://host/dir/seg1.ts").unwrap();
    assert_eq!(p, "./download/dir/seg1.ts");
}

#[test]
fn dest_path_fails_on_bad_url() {
    assert_eq!(segment_dest_path("not a url"), Err(PipelineError::UrlParse));
}

#[test]
fn missing_content_length_is_a_precondition_error() {
    assert_eq!(require_content_length(None), Err(PipelineError::Precondition));
    assert_eq!(require_content_length(Some(42)), Ok(42));
}

#[test]
fn error_messages_name_the_kind() {
    assert_eq!(PipelineError::Network.message(), "network error");
    assert_eq!(PipelineError::UrlParse.message(), "url parse error");
    assert_eq!(PipelineError::Precondition.message(), "missing content length");
    assert_eq!(PipelineError::Filesystem.message(), "filesystem error");
}

#[test]
fn empty_text_yields_no_segments() {
    let v = get_ts_list(BASE, "").unwrap();
    assert!(v.is_empty());
}

// The end-of-list line itself never counts as a reference, so an info
// tag with nothing but the end tag after it yields no entry.
#[test]
fn endlist_after_info_tag_yields_nothing() {
    let v = get_ts_list(BASE, "#EXTM3U\n#EXTINF:5,\n#EXT-X-ENDLIST\n").unwrap();
    assert!(v.is_empty());
}

#[test]
fn flagged_endlist_records_nothing_even_with_more_pairs() {
    let text = "#EXTM3U\n#EXTINF:5,\n#EXT-X-ENDLIST\n#EXTINF:5,\nseg9.ts\n#EXT-X-ENDLIST\n";
    let v = get_ts_list(BASE, text).unwrap();
    assert!(v.is_empty());
}

// Quotes are removed before the attribute list is split at commas, so a
// comma inside a quoted URI still separates attributes.
#[test]
fn quoted_comma_still_splits_attributes() {
    let k = get_key_info("#EXT-X-KEY:URI=\"https://k/key,x\",IV=0x01");
    assert_eq!(k.uri, Some("https://k/key".to_string()));
    assert_eq!(k.iv, Some("0x01".to_string()));
    assert_eq!(k.method, None);
}

#[test]
fn crlf_lines_parse_like_lf_lines() {
    let text = "#EXTM3U\r\n#EXTINF:10,\r\nseg1.ts\r\n#EXT-X-ENDLIST\r\n";
    let v = get_ts_list(BASE, text).unwrap();
    assert_eq!(v, vec!["http://host/dir/seg1.ts".to_string()]);
}
