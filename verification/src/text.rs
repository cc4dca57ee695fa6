use vstd::prelude::*;

verus! {

/// `p` is a prefix of `s`.
pub open spec fn starts_with(s: Seq<char>, p: Seq<char>) -> bool {
    p.len() <= s.len() && s.subrange(0, p.len() as int) == p
}

/// Character-by-character prefix test.
pub fn str_starts_with(s: &str, p: &str) -> (r: bool)
    ensures
        r == starts_with(s@, p@),
{
    let n = p.unicode_len();
    if n > s.unicode_len() {
        return false;
    }
    let mut i: usize = 0;
    while i < n
        invariant
            i <= n,
            n == p@.len(),
            n <= s@.len(),
            forall|j: int| 0 <= j < i ==> s@[j] == p@[j],
        decreases n - i,
    {
        if s.get_char(i) != p.get_char(i) {
            proof {
                assert(s@.subrange(0, p@.len() as int)[i as int] != p@[i as int]);
            }
            return false;
        }
        i += 1;
    }
    proof {
        assert(s@.subrange(0, p@.len() as int) =~= p@);
    }
    true
}

/// Index of the first occurrence of `c` in `s`; `s.len()` when `c` is absent.
pub open spec fn find_char(s: Seq<char>, c: char) -> nat
    decreases s.len(),
{
    if s.len() == 0 {
        0
    } else if s[0] == c {
        0
    } else {
        1 + find_char(s.drop_first(), c)
    }
}

pub proof fn lemma_find_char_at(s: Seq<char>, c: char, j: int)
    requires
        0 <= j <= s.len(),
        forall|k: int| 0 <= k < j ==> s[k] != c,
        j < s.len() ==> s[j] == c,
    ensures
        find_char(s, c) == j,
    decreases s.len(),
{
    if s.len() == 0 {
    } else if s[0] == c {
        assert(j == 0);
    } else {
        assert(j >= 1);
        let t = s.drop_first();
        assert forall|k: int| 0 <= k < j - 1 implies t[k] != c by {
            assert(t[k] == s[k + 1]);
        }
        if j - 1 < t.len() {
            assert(t[j - 1] == s[j]);
        }
        lemma_find_char_at(t, c, j - 1);
    }
}

/// When `l` ends in a carriage return, that character is removed.
pub open spec fn strip_cr(l: Seq<char>) -> Seq<char> {
    if l.len() > 0 && l.last() == '\r' {
        l.drop_last()
    } else {
        l
    }
}

/// The lines of `s`: pieces split at each '\n', with a '\r' standing
/// immediately before the '\n' removed; a final line ending produces no
/// empty last line.
pub open spec fn spec_lines(s: Seq<char>) -> Seq<Seq<char>>
    decreases s.len(),
{
    if s.len() == 0 {
        Seq::empty()
    } else {
        let j = find_char(s, '\n');
        if j >= s.len() {
            seq![s]
        } else {
            seq![strip_cr(s.subrange(0, j as int))] + spec_lines(
                s.subrange(j as int + 1, s.len() as int),
            )
        }
    }
}

/// Splits text into lines, as `spec_lines` describes.
pub fn split_lines(s: &str) -> (r: Vec<String>)
    ensures
        r@.map_values(|l: String| l@) == spec_lines(s@),
    decreases s@.len(),
{
    let n = s.unicode_len();
    if n == 0 {
        let r: Vec<String> = Vec::new();
        proof {
            assert(r@.map_values(|l: String| l@) =~= spec_lines(s@));
        }
        return r;
    }
    let mut j: usize = 0;
    while j < n && s.get_char(j) != '\n'
        invariant
            j <= n,
            n == s@.len(),
            forall|k: int| 0 <= k < j ==> s@[k] != '\n',
        decreases n - j,
    {
        j += 1;
    }
    proof {
        lemma_find_char_at(s@, '\n', j as int);
    }
    if j == n {
        let mut r: Vec<String> = Vec::new();
        r.push(s.to_owned());
        proof {
            assert(r@.map_values(|l: String| l@) =~= spec_lines(s@));
        }
        r
    } else {
        let e = if j > 0 && s.get_char(j - 1) == '\r' {
            j - 1
        } else {
            j
        };
        let piece = s.substring_char(0, e);
        let rest = s.substring_char(j + 1, n);
        let mut tail = split_lines(rest);
        let mut r: Vec<String> = Vec::new();
        r.push(piece.to_owned());
        r.append(&mut tail);
        proof {
            assert(piece@ =~= strip_cr(s@.subrange(0, j as int)));
            assert(r@.map_values(|l: String| l@) =~= spec_lines(s@));
        }
        r
    }
}

/// The comma-separated pieces of `s`; always at least one piece.
pub open spec fn split_commas(s: Seq<char>) -> Seq<Seq<char>>
    decreases s.len(),
{
    let j = find_char(s, ',');
    if j >= s.len() {
        seq![s]
    } else {
        seq![s.subrange(0, j as int)] + split_commas(s.subrange(j as int + 1, s.len() as int))
    }
}

/// Splits a string at commas, as `split_commas` describes.
pub fn split_on_commas(s: &str) -> (r: Vec<String>)
    ensures
        r@.map_values(|l: String| l@) == split_commas(s@),
    decreases s@.len(),
{
    let n = s.unicode_len();
    let mut j: usize = 0;
    while j < n && s.get_char(j) != ','
        invariant
            j <= n,
            n == s@.len(),
            forall|k: int| 0 <= k < j ==> s@[k] != ',',
        decreases n - j,
    {
        j += 1;
    }
    proof {
        lemma_find_char_at(s@, ',', j as int);
    }
    if j == n {
        let mut r: Vec<String> = Vec::new();
        r.push(s.to_owned());
        proof {
            assert(r@.map_values(|l: String| l@) =~= split_commas(s@));
        }
        r
    } else {
        let piece = s.substring_char(0, j);
        let rest = s.substring_char(j + 1, n);
        let mut tail = split_on_commas(rest);
        let mut r: Vec<String> = Vec::new();
        r.push(piece.to_owned());
        r.append(&mut tail);
        proof {
            assert(r@.map_values(|l: String| l@) =~= split_commas(s@));
        }
        r
    }
}

/// `s` with every double-quote character removed.
pub open spec fn remove_quotes(s: Seq<char>) -> Seq<char>
    decreases s.len(),
{
    if s.len() == 0 {
        s
    } else if s.last() == '"' {
        remove_quotes(s.drop_last())
    } else {
        remove_quotes(s.drop_last()).push(s.last())
    }
}

/// Removes every double-quote character, as `remove_quotes` describes.
pub fn strip_quotes(s: &str) -> (r: String)
    ensures
        r@ == remove_quotes(s@),
{
    let n = s.unicode_len();
    let mut out = String::new();
    let mut start: usize = 0;
    let mut i: usize = 0;
    while i < n
        invariant
            start <= i <= n,
            n == s@.len(),
            forall|k: int| start <= k < i ==> s@[k] != '"',
            out@ + s@.subrange(start as int, i as int) == remove_quotes(s@.subrange(0, i as int)),
        decreases n - i,
    {
        proof {
            assert(s@.subrange(0, i + 1).drop_last() =~= s@.subrange(0, i as int));
            assert(s@.subrange(0, i + 1).last() == s@[i as int]);
        }
        if s.get_char(i) == '"' {
            out.append(s.substring_char(start, i));
            proof {
                assert(out@ + s@.subrange(start as int, i + 1).subrange(
                    i + 1 - start,
                    i + 1 - start,
                ) =~= out@);
            }
            start = i + 1;
            proof {
                assert(out@ + s@.subrange(start as int, i + 1) =~= out@);
                assert(out@ =~= remove_quotes(s@.subrange(0, i + 1)));
            }
        } else {
            proof {
                assert(out@ + s@.subrange(start as int, i + 1) =~= (out@ + s@.subrange(
                    start as int,
                    i as int,
                )).push(s@[i as int]));
                assert(remove_quotes(s@.subrange(0, i + 1)) == remove_quotes(
                    s@.subrange(0, i as int),
                ).push(s@[i as int]));
            }
        }
        i += 1;
    }
    out.append(s.substring_char(start, n));
    proof {
        assert(s@.subrange(0, n as int) =~= s@);
    }
    out
}

} // verus!
