use vstd::prelude::*;

use crate::errors::PipelineError;
use crate::text::{spec_lines, split_lines, starts_with, str_starts_with};
use crate::urls::{resolve_segment_url, url_join_of, url_parse_check, url_parse_ok};

verus! {

/// The header tag that every valid playlist begins with.
pub open spec fn header_tag() -> Seq<char> {
    "#EXTM3U"@
}

/// The tag that announces the segment reference on the following line.
pub open spec fn inf_tag() -> Seq<char> {
    "#EXTINF"@
}

/// The tag after which no further lines are scanned.
pub open spec fn endlist_tag() -> Seq<char> {
    "#EXT-X-ENDLIST"@
}

pub open spec fn is_valid_playlist(t: Seq<char>) -> bool {
    starts_with(t, header_tag())
}

/// Accepts playlist text only if it begins with the standard header tag.
pub fn validate_m3u8_content(text: &str) -> (r: bool)
    ensures
        r == is_valid_playlist(text@),
{
    str_starts_with(text, "#EXTM3U")
}

/// The segment references of a line sequence: a line following an info
/// tag is recorded; scanning stops at the first end-of-list tag, and
/// that tag's own line never counts as a reference, even when an info
/// tag immediately precedes it.
pub open spec fn seg_refs(lines: Seq<Seq<char>>, flag: bool) -> Seq<Seq<char>>
    decreases lines.len(),
{
    if lines.len() == 0 {
        Seq::empty()
    } else {
        let l = lines.first();
        let rest = lines.drop_first();
        if starts_with(l, inf_tag()) {
            seg_refs(rest, true)
        } else if starts_with(l, endlist_tag()) {
            Seq::empty()
        } else if flag {
            seq![l] + seg_refs(rest, false)
        } else {
            seg_refs(rest, false)
        }
    }
}

/// The segment references of full playlist text, in file order.
pub open spec fn playlist_refs(t: Seq<char>) -> Seq<Seq<char>> {
    seg_refs(spec_lines(t), false)
}

/// No line can carry both the info tag and the end-of-list tag: the two
/// differ in their fifth character.
proof fn lemma_inf_not_endlist(l: Seq<char>)
    ensures
        !(starts_with(l, inf_tag()) && starts_with(l, endlist_tag())),
{
    if starts_with(l, inf_tag()) && starts_with(l, endlist_tag()) {
        reveal_strlit("#EXTINF");
        reveal_strlit("#EXT-X-ENDLIST");
        assert(l.subrange(0, inf_tag().len() as int)[4] == l[4]);
        assert(l.subrange(0, endlist_tag().len() as int)[4] == l[4]);
        assert(inf_tag()[4] == 'I');
        assert(endlist_tag()[4] == '-');
        assert(false);
    }
}

/// A playlist shaped as info-tag lines each immediately followed by
/// exactly one reference line, closed by an end-of-list line, parses to
/// exactly those references, in file order.
pub proof fn lemma_info_ref_pairs(lines: Seq<Seq<char>>, refs: Seq<Seq<char>>, end: Seq<char>)
    requires
        lines.len() == 2 * refs.len() + 1,
        forall|i: int| 0 <= i < refs.len() ==> starts_with(#[trigger] lines[2 * i], inf_tag()),
        forall|i: int| 0 <= i < refs.len() ==> lines[2 * i + 1] == #[trigger] refs[i],
        forall|i: int|
            0 <= i < refs.len() ==> !starts_with(#[trigger] refs[i], inf_tag()) && !starts_with(
                refs[i],
                endlist_tag(),
            ),
        lines[lines.len() - 1] == end,
        starts_with(end, endlist_tag()),
    ensures
        seg_refs(lines, false) == refs,
    decreases refs.len(),
{
    lemma_inf_not_endlist(end);
    if refs.len() == 0 {
        assert(lines.first() == end);
        assert(seg_refs(lines, false) =~= refs);
    } else {
        let rest = lines.drop_first();
        let rest2 = rest.drop_first();
        assert(starts_with(lines[2 * 0int], inf_tag()));
        assert(lines[0] == lines.first());
        assert(rest.first() == lines[1]);
        assert(lines[2 * 0int + 1] == refs[0]);
        assert(seg_refs(lines, false) == seg_refs(rest, true));
        assert(seg_refs(rest, true) == seq![refs.first()] + seg_refs(rest2, false));
        assert(rest2.len() == 2 * refs.drop_first().len() + 1);
        assert forall|i: int|
            0 <= i < refs.drop_first().len() implies starts_with(
            #[trigger] rest2[2 * i],
            inf_tag(),
        ) by {
            assert(rest2[2 * i] == lines[2 * (i + 1)]);
        }
        assert forall|i: int|
            0 <= i < refs.drop_first().len() implies rest2[2 * i + 1] == #[trigger] refs.drop_first()[i] by {
            assert(rest2[2 * i + 1] == lines[2 * (i + 1) + 1]);
            assert(refs.drop_first()[i] == refs[i + 1]);
        }
        assert forall|i: int|
            0 <= i < refs.drop_first().len() implies !starts_with(
            #[trigger] refs.drop_first()[i],
            inf_tag(),
        ) && !starts_with(refs.drop_first()[i], endlist_tag()) by {
            assert(refs.drop_first()[i] == refs[i + 1]);
        }
        assert(rest2[rest2.len() - 1] == lines[lines.len() - 1]);
        lemma_info_ref_pairs(rest2, refs.drop_first(), end);
        assert(seg_refs(lines, false) =~= refs);
    }
}

/// `lines` is a playlist body whose references are exactly `refs`: any
/// ignored lines (comments, other tags), then either the end-of-list
/// line with no reference owed, or an info line immediately followed by
/// the next owed reference line, and so on.
pub open spec fn pairs_shape(lines: Seq<Seq<char>>, refs: Seq<Seq<char>>) -> bool
    decreases lines.len(),
{
    if lines.len() == 0 {
        false
    } else {
        let l = lines.first();
        if starts_with(l, endlist_tag()) {
            refs.len() == 0
        } else if starts_with(l, inf_tag()) {
            if lines.len() >= 2 && refs.len() > 0 {
                lines[1] == refs.first() && !starts_with(refs.first(), inf_tag())
                    && !starts_with(refs.first(), endlist_tag()) && pairs_shape(
                    lines.subrange(2, lines.len() as int),
                    refs.drop_first(),
                )
            } else {
                false
            }
        } else {
            pairs_shape(lines.drop_first(), refs)
        }
    }
}

/// A playlist body of info-tag lines each immediately followed by
/// exactly one reference line, with any other lines ignored, closed by
/// an end-of-list line, parses to exactly those references, in file
/// order.
pub proof fn lemma_pairs_shape_parses(lines: Seq<Seq<char>>, refs: Seq<Seq<char>>)
    requires
        pairs_shape(lines, refs),
    ensures
        seg_refs(lines, false) == refs,
    decreases lines.len(),
{
    let l = lines.first();
    let rest = lines.drop_first();
    lemma_inf_not_endlist(l);
    if starts_with(l, endlist_tag()) {
        assert(seg_refs(lines, false) =~= refs);
    } else if starts_with(l, inf_tag()) {
        let rest2 = lines.subrange(2, lines.len() as int);
        assert(rest.first() == lines[1]);
        assert(rest.drop_first() =~= rest2);
        assert(seg_refs(lines, false) == seg_refs(rest, true));
        assert(seg_refs(rest, true) == seq![refs.first()] + seg_refs(rest2, false));
        lemma_pairs_shape_parses(rest2, refs.drop_first());
        assert(seg_refs(lines, false) =~= refs);
    } else {
        lemma_pairs_shape_parses(rest, refs);
        assert(seg_refs(lines, false) == seg_refs(rest, false));
    }
}

/// Lines beyond the first end-of-list tag never contribute segment
/// references: cutting the playlist right after that tag leaves the
/// parse unchanged, whatever follows it.
pub proof fn lemma_endlist_stops(lines: Seq<Seq<char>>, k: int, flag: bool)
    requires
        0 <= k < lines.len(),
        starts_with(lines[k], endlist_tag()),
        forall|j: int| 0 <= j < k ==> !starts_with(#[trigger] lines[j], endlist_tag()),
    ensures
        seg_refs(lines, flag) == seg_refs(lines.subrange(0, k + 1), flag),
    decreases k,
{
    let l = lines.first();
    let rest = lines.drop_first();
    let tr = lines.subrange(0, k + 1);
    assert(tr.first() == l);
    assert(tr.drop_first() =~= rest.subrange(0, k));
    lemma_inf_not_endlist(l);
    if k == 0 {
        assert(tr.drop_first() =~= Seq::<Seq<char>>::empty());
        assert(!starts_with(l, inf_tag()));
        assert(seg_refs(lines, flag) =~= Seq::<Seq<char>>::empty());
        assert(seg_refs(tr, flag) =~= Seq::<Seq<char>>::empty());
    } else {
        assert(rest[k - 1] == lines[k]);
        assert forall|j: int| 0 <= j < k - 1 implies !starts_with(
            #[trigger] rest[j],
            endlist_tag(),
        ) by {
            assert(rest[j] == lines[j + 1]);
        }
        assert(!starts_with(l, endlist_tag()));
        if starts_with(l, inf_tag()) {
            lemma_endlist_stops(rest, k - 1, true);
            assert(seg_refs(lines, flag) == seg_refs(rest, true));
            assert(seg_refs(tr, flag) == seg_refs(tr.drop_first(), true));
        } else if flag {
            lemma_endlist_stops(rest, k - 1, false);
            assert(seg_refs(lines, flag) == seq![l] + seg_refs(rest, false));
            assert(seg_refs(tr, flag) == seq![l] + seg_refs(tr.drop_first(), false));
        } else {
            lemma_endlist_stops(rest, k - 1, false);
            assert(seg_refs(lines, flag) == seg_refs(rest, false));
            assert(seg_refs(tr, flag) == seg_refs(tr.drop_first(), false));
        }
    }
}

/// Collects the playlist's segment references and resolves each one, in
/// file order, against the playlist's own URL.
pub fn get_ts_list(link: &str, text: &str) -> (r: Result<Vec<String>, PipelineError>)
    ensures
        match r {
            Ok(v) => {
                &&& url_parse_ok(link@)
                &&& v@.len() == playlist_refs(text@).len()
                &&& forall|k: int|
                    0 <= k < v@.len() ==> url_join_of(link@, playlist_refs(text@)[k]) == Some(
                        #[trigger] v@[k]@,
                    ) && url_parse_ok(v@[k]@)
            },
            Err(e) => {
                &&& e == PipelineError::UrlParse
                &&& (!url_parse_ok(link@) || exists|k: int|
                    0 <= k < playlist_refs(text@).len() && url_join_of(
                        link@,
                        #[trigger] playlist_refs(text@)[k],
                    ) is None)
            },
        },
{
    if !url_parse_check(link) {
        return Err(PipelineError::UrlParse);
    }
    let lines = split_lines(text);
    let ghost gl: Seq<Seq<char>> = spec_lines(text@);
    let n = lines.len();
    let mut v: Vec<String> = Vec::new();
    let ghost mut done: Seq<Seq<char>> = Seq::empty();
    let mut flag = false;
    let mut stop = false;
    let mut i: usize = 0;
    proof {
        assert(gl.subrange(0, n as int) =~= gl);
    }
    while i < n && !stop
        invariant
            i <= n,
            gl == spec_lines(text@),
            n == gl.len(),
            lines@.map_values(|l: String| l@) == gl,
            url_parse_ok(link@),
            stop ==> seg_refs(gl, false) == done,
            !stop ==> seg_refs(gl, false) == done + seg_refs(
                gl.subrange(i as int, n as int),
                flag,
            ),
            v@.len() == done.len(),
            forall|k: int|
                0 <= k < done.len() ==> url_join_of(link@, done[k]) == Some(#[trigger] v@[k]@)
                    && url_parse_ok(v@[k]@),
        decreases n - i,
    {
        let item = &lines[i];
        let ghost sub = gl.subrange(i as int, n as int);
        proof {
            assert(item@ == gl[i as int]);
            assert(sub.first() == gl[i as int]);
            assert(sub.drop_first() =~= gl.subrange(i as int + 1, n as int));
        }
        if str_starts_with(item.as_str(), "#EXTINF") {
            flag = true;
        } else if str_starts_with(item.as_str(), "#EXT-X-ENDLIST") {
            stop = true;
        } else if flag {
            proof {
                assert(seg_refs(sub, true) == seq![sub.first()] + seg_refs(
                    sub.drop_first(),
                    false,
                ));
                assert(seg_refs(sub, true)[0] == item@);
                assert(seg_refs(gl, false) == done + seg_refs(sub, true));
                assert(seg_refs(gl, false)[done.len() as int] == item@);
                assert(playlist_refs(text@) == seg_refs(gl, false));
            }
            match resolve_segment_url(link, item.as_str()) {
                Ok(abs) => {
                    v.push(abs);
                    proof {
                        done = done + seq![gl[i as int]];
                    }
                },
                Err(e) => {
                    proof {
                        assert(0 <= done.len() < playlist_refs(text@).len());
                        assert(url_join_of(link@, playlist_refs(text@)[done.len() as int])
                            is None);
                    }
                    return Err(e);
                },
            }
            flag = false;
        }
        i += 1;
    }
    proof {
        if !stop {
            assert(gl.subrange(n as int, n as int) =~= Seq::<Seq<char>>::empty());
        }
        assert(done == seg_refs(gl, false));
    }
    Ok(v)
}

} // verus!
