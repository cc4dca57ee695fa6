use vstd::prelude::*;

use crate::text::{
    remove_quotes, spec_lines, split_commas, split_lines, split_on_commas, starts_with,
    str_starts_with, strip_quotes,
};

verus! {

/// The tag that opens a key directive line.
pub open spec fn key_tag() -> Seq<char> {
    "#EXT-X-KEY:"@
}

/// The recognized attribute prefix for the encryption method.
pub open spec fn method_attr() -> Seq<char> {
    "METHOD="@
}

/// The recognized attribute prefix for the initialization vector.
pub open spec fn iv_attr() -> Seq<char> {
    "IV="@
}

/// The recognized attribute prefix for the key-fetch URI.
pub open spec fn uri_attr() -> Seq<char> {
    "URI="@
}

/// The mathematical content of a key directive mapping.
#[verifier::ext_equal]
pub ghost struct KeyModel {
    pub method: Option<Seq<char>>,
    pub iv: Option<Seq<char>>,
    pub uri: Option<Seq<char>>,
}

pub open spec fn empty_key_model() -> KeyModel {
    KeyModel { method: None, iv: None, uri: None }
}

/// One comma-separated attribute applied to the mapping: a recognized
/// prefix stores the remainder under its field, unrecognized attributes
/// change nothing.
pub open spec fn apply_attr(m: KeyModel, p: Seq<char>) -> KeyModel {
    if starts_with(p, method_attr()) {
        KeyModel {
            method: Some(p.subrange(method_attr().len() as int, p.len() as int)),
            iv: m.iv,
            uri: m.uri,
        }
    } else if starts_with(p, iv_attr()) {
        KeyModel {
            method: m.method,
            iv: Some(p.subrange(iv_attr().len() as int, p.len() as int)),
            uri: m.uri,
        }
    } else if starts_with(p, uri_attr()) {
        KeyModel {
            method: m.method,
            iv: m.iv,
            uri: Some(p.subrange(uri_attr().len() as int, p.len() as int)),
        }
    } else {
        m
    }
}

pub open spec fn apply_attrs(m: KeyModel, ps: Seq<Seq<char>>) -> KeyModel
    decreases ps.len(),
{
    if ps.len() == 0 {
        m
    } else {
        apply_attrs(apply_attr(m, ps.first()), ps.drop_first())
    }
}

/// One playlist line applied to the mapping: only a key-tag line changes
/// it; the tag is stripped, every double quote is removed, and the
/// remainder is split at commas. A later line overwrites earlier values.
pub open spec fn apply_line(m: KeyModel, l: Seq<char>) -> KeyModel {
    if starts_with(l, key_tag()) {
        apply_attrs(
            m,
            split_commas(remove_quotes(l.subrange(key_tag().len() as int, l.len() as int))),
        )
    } else {
        m
    }
}

pub open spec fn apply_lines(m: KeyModel, ls: Seq<Seq<char>>) -> KeyModel
    decreases ls.len(),
{
    if ls.len() == 0 {
        m
    } else {
        apply_lines(apply_line(m, ls.first()), ls.drop_first())
    }
}

/// The key directive mapping of full playlist text.
pub open spec fn key_info_of(t: Seq<char>) -> KeyModel {
    apply_lines(empty_key_model(), spec_lines(t))
}

proof fn lemma_apply_lines_no_key(m: KeyModel, ls: Seq<Seq<char>>)
    requires
        forall|i: int| 0 <= i < ls.len() ==> !starts_with(#[trigger] ls[i], key_tag()),
    ensures
        apply_lines(m, ls) == m,
    decreases ls.len(),
{
    if ls.len() > 0 {
        assert(!starts_with(ls[0], key_tag()));
        assert(apply_line(m, ls.first()) == m);
        assert forall|i: int| 0 <= i < ls.drop_first().len() implies !starts_with(
            #[trigger] ls.drop_first()[i],
            key_tag(),
        ) by {
            assert(ls.drop_first()[i] == ls[i + 1]);
        }
        lemma_apply_lines_no_key(m, ls.drop_first());
    }
}

/// A playlist none of whose lines carries the key tag yields the empty
/// key mapping.
pub proof fn lemma_no_key_line_empty_mapping(t: Seq<char>)
    requires
        forall|i: int|
            0 <= i < spec_lines(t).len() ==> !starts_with(#[trigger] spec_lines(t)[i], key_tag()),
    ensures
        key_info_of(t) == empty_key_model(),
{
    lemma_apply_lines_no_key(empty_key_model(), spec_lines(t));
}

/// The encryption metadata found in a playlist: method, initialization
/// vector, and key-fetch URI, each absent until a key directive sets it.
pub struct KeyInfo {
    pub method: Option<String>,
    pub iv: Option<String>,
    pub uri: Option<String>,
}

impl View for KeyInfo {
    type V = KeyModel;

    open spec fn view(&self) -> KeyModel {
        KeyModel {
            method: match self.method {
                Some(s) => Some(s@),
                None => None,
            },
            iv: match self.iv {
                Some(s) => Some(s@),
                None => None,
            },
            uri: match self.uri {
                Some(s) => Some(s@),
                None => None,
            },
        }
    }
}

/// Stores one attribute into the mapping when its prefix is recognized.
fn apply_key_attr(m: &mut KeyInfo, p: &str)
    ensures
        final(m)@ == apply_attr(old(m)@, p@),
{
    let n = p.unicode_len();
    if str_starts_with(p, "METHOD=") {
        proof {
            reveal_strlit("METHOD=");
        }
        m.method = Some(p.substring_char(7, n).to_owned());
    } else if str_starts_with(p, "IV=") {
        proof {
            reveal_strlit("IV=");
        }
        m.iv = Some(p.substring_char(3, n).to_owned());
    } else if str_starts_with(p, "URI=") {
        proof {
            reveal_strlit("URI=");
        }
        m.uri = Some(p.substring_char(4, n).to_owned());
    }
}

/// Applies one playlist line to the mapping, as `apply_line` describes.
fn apply_key_line(m: &mut KeyInfo, line: &str)
    ensures
        final(m)@ == apply_line(old(m)@, line@),
{
    if !str_starts_with(line, "#EXT-X-KEY:") {
        return;
    }
    proof {
        reveal_strlit("#EXT-X-KEY:");
    }
    let n = line.unicode_len();
    let rest = line.substring_char(11, n);
    let data = strip_quotes(rest);
    let parts = split_on_commas(data.as_str());
    let ghost ps = split_commas(remove_quotes(line@.subrange(11, n as int)));
    let pn = parts.len();
    let mut j: usize = 0;
    proof {
        assert(ps.subrange(0, pn as int) =~= ps);
    }
    while j < pn
        invariant
            j <= pn,
            pn == ps.len(),
            parts@.map_values(|l: String| l@) == ps,
            apply_attrs(m@, ps.subrange(j as int, pn as int)) == apply_line(old(m)@, line@),
        decreases pn - j,
    {
        let p = &parts[j];
        let ghost sub = ps.subrange(j as int, pn as int);
        proof {
            assert(p@ == ps[j as int]);
            assert(sub.first() == p@);
            assert(sub.drop_first() =~= ps.subrange(j as int + 1, pn as int));
            assert(apply_attrs(m@, sub) == apply_attrs(apply_attr(m@, p@), sub.drop_first()));
        }
        apply_key_attr(m, p.as_str());
        j += 1;
    }
    proof {
        assert(ps.subrange(pn as int, pn as int) =~= Seq::<Seq<char>>::empty());
    }
}

/// Scans every playlist line and collects the key directive mapping,
/// last value winning for each field.
pub fn get_key_info(content: &str) -> (r: KeyInfo)
    ensures
        r@ == key_info_of(content@),
{
    let lines = split_lines(content);
    let ghost gl: Seq<Seq<char>> = spec_lines(content@);
    let n = lines.len();
    let mut m = KeyInfo { method: None, iv: None, uri: None };
    let mut i: usize = 0;
    proof {
        assert(gl.subrange(0, n as int) =~= gl);
        assert(m@ == empty_key_model());
    }
    while i < n
        invariant
            i <= n,
            gl == spec_lines(content@),
            n == gl.len(),
            lines@.map_values(|l: String| l@) == gl,
            apply_lines(m@, gl.subrange(i as int, n as int)) == key_info_of(content@),
        decreases n - i,
    {
        let item = &lines[i];
        let ghost sub = gl.subrange(i as int, n as int);
        proof {
            assert(item@ == gl[i as int]);
            assert(sub.first() == item@);
            assert(sub.drop_first() =~= gl.subrange(i as int + 1, n as int));
            assert(apply_lines(m@, sub) == apply_lines(apply_line(m@, item@), sub.drop_first()));
        }
        apply_key_line(&mut m, item.as_str());
        i += 1;
    }
    proof {
        assert(gl.subrange(n as int, n as int) =~= Seq::<Seq<char>>::empty());
    }
    m
}

} // verus!
